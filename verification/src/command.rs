//! The command parser.
//!
//! A message text is a directed command when it matches `/<name>` or
//! `/<name>@<mention>`, with `name` and `mention` nonempty runs of word
//! characters. With a mention, the command is directed exactly when the
//! mention equals the bot's own username, case-sensitively; without one,
//! exactly when the chat is private — in a group an undirected command is
//! ignored, so that several bots can share the chat. Parsing is a pure
//! function of the text, the chat's directness and the bot's username.

use vstd::prelude::*;

verus! {

use vstd::string::StrSliceExecFns;
use vstd::string::StringExecFns;
use crate::chat::ChatIdentity;

/// What a message text turned out to be.
#[derive(Debug, Clone, PartialEq)]
pub enum Command {
    /// A directed `/start`.
    Start,
    /// A directed `/stop`.
    Stop,
    /// A directed command of any other name, carried along for the notice.
    Unknown(String),
    /// Not a command directed at this bot: plain text, to be checked for
    /// passive trigger content only.
    Plain,
}

/// The mathematical value of a parsed command.
pub ghost enum CommandModel {
    Start,
    Stop,
    Unknown(Seq<char>),
    Plain,
}

impl View for Command {
    type V = CommandModel;

    open spec fn view(&self) -> CommandModel {
        match self {
            Command::Start => CommandModel::Start,
            Command::Stop => CommandModel::Stop,
            Command::Unknown(name) => CommandModel::Unknown(name@),
            Command::Plain => CommandModel::Plain,
        }
    }
}

/// The word characters of the command grammar.
pub open spec fn is_word_char(c: char) -> bool {
    ('a' <= c && c <= 'z') || ('A' <= c && c <= 'Z') || ('0' <= c && c <= '9') || c == '_'
}

/// Every character of `s` is a word character.
pub open spec fn all_word_chars(s: Seq<char>) -> bool {
    forall|i: int| 0 <= i < s.len() ==> is_word_char(#[trigger] s[i])
}

/// `rest` (the text after the leading slash) splits at index `i` into a
/// nonempty word-character name, an `@`, and a nonempty word-character
/// mention.
pub open spec fn mention_split_at(rest: Seq<char>, i: int) -> bool {
    &&& 0 < i < rest.len() - 1
    &&& rest[i] == '@'
    &&& all_word_chars(rest.take(i))
    &&& all_word_chars(rest.skip(i + 1))
}

/// The command a directed name stands for.
pub open spec fn name_command(name: Seq<char>) -> CommandModel {
    if name == "start"@ {
        CommandModel::Start
    } else if name == "stop"@ {
        CommandModel::Stop
    } else {
        CommandModel::Unknown(name)
    }
}

/// The parse of a message text: the directed command it holds, or
/// [`CommandModel::Plain`] when it holds none.
pub open spec fn parse_spec(text: Seq<char>, private: bool, bot: Seq<char>) -> CommandModel {
    if text.len() < 2 || text[0] != '/' {
        CommandModel::Plain
    } else {
        let rest = text.skip(1);
        if all_word_chars(rest) {
            if private {
                name_command(rest)
            } else {
                CommandModel::Plain
            }
        } else if exists|i: int| mention_split_at(rest, i) {
            let i = choose|i: int| mention_split_at(rest, i);
            if rest.skip(i + 1) == bot {
                name_command(rest.take(i))
            } else {
                CommandModel::Plain
            }
        } else {
            CommandModel::Plain
        }
    }
}

/// A text splits at one index at most: the name may hold no `@`, so the
/// split `@` is the first and only candidate.
proof fn lemma_mention_split_unique(rest: Seq<char>, i1: int, i2: int)
    requires
        mention_split_at(rest, i1),
        mention_split_at(rest, i2),
    ensures
        i1 == i2,
{
    assert(!is_word_char('@'));
    if i1 < i2 {
        assert(rest.take(i2)[i1] == rest[i1]);
    } else if i2 < i1 {
        assert(rest.take(i1)[i2] == rest[i2]);
    }
}

/// The first index in `[from, s@.len())` holding `c`, if any; earlier
/// indices of the range hold other characters.
fn find_char_from(s: &str, from: usize, n: usize, c: char) -> (r: Option<usize>)
    requires
        n == s@.len(),
        from <= n,
    ensures
        match r {
            Some(i) => from <= i < n && s@[i as int] == c && forall|j: int|
                from <= j < i ==> s@[j] != c,
            None => forall|j: int| from <= j < n ==> s@[j] != c,
        },
{
    let mut i: usize = from;
    while i < n
        invariant
            from <= i <= n,
            n == s@.len(),
            forall|j: int| from <= j < i ==> s@[j] != c,
        decreases n - i,
    {
        if s.get_char(i) == c {
            return Some(i);
        }
        i = i + 1;
    }
    None
}

fn is_word_char_exec(c: char) -> (r: bool)
    ensures
        r == is_word_char(c),
{
    ('a' <= c && c <= 'z') || ('A' <= c && c <= 'Z') || ('0' <= c && c <= '9') || c == '_'
}

/// Whether every character of `s@` in `[from, to)` is a word character.
fn word_range(s: &str, from: usize, to: usize) -> (r: bool)
    requires
        from <= to <= s@.len(),
    ensures
        r == all_word_chars(s@.subrange(from as int, to as int)),
{
    let ghost part = s@.subrange(from as int, to as int);
    let mut i: usize = from;
    while i < to
        invariant
            from <= i <= to <= s@.len(),
            part == s@.subrange(from as int, to as int),
            forall|j: int| 0 <= j < i - from ==> is_word_char(#[trigger] part[j]),
        decreases to - i,
    {
        let c = s.get_char(i);
        proof {
            assert(part[i - from] == s@[i as int]);
        }
        if !is_word_char_exec(c) {
            return false;
        }
        i = i + 1;
    }
    true
}

/// Whether `s@` in `[from, to)` equals `t@`, character for character.
pub(crate) fn eq_range(s: &str, from: usize, to: usize, t: &str) -> (r: bool)
    requires
        from <= to <= s@.len(),
    ensures
        r == (s@.subrange(from as int, to as int) == t@),
{
    let ghost part = s@.subrange(from as int, to as int);
    let m: usize = t.unicode_len();
    if to - from != m {
        proof {
            assert(part.len() != t@.len());
        }
        return false;
    }
    let mut i: usize = 0;
    while i < m
        invariant
            0 <= i <= m,
            m == t@.len(),
            from + m == to,
            to <= s@.len(),
            part == s@.subrange(from as int, to as int),
            forall|j: int| 0 <= j < i ==> part[j] == t@[j],
        decreases m - i,
    {
        let a = s.get_char(from + i);
        let b = t.get_char(i);
        proof {
            assert(part[i as int] == s@[from + i]);
        }
        if a != b {
            proof {
                assert(part[i as int] != t@[i as int]);
            }
            return false;
        }
        i = i + 1;
    }
    proof {
        assert(part =~= t@);
    }
    true
}

/// Whether two strings hold the same characters.
pub fn str_eq(a: &str, b: &str) -> (r: bool)
    ensures
        r == (a@ == b@),
{
    let n: usize = a.unicode_len();
    let r = eq_range(a, 0, n, b);
    proof {
        assert(a@.subrange(0, a@.len() as int) =~= a@);
    }
    r
}

/// The command held by the directed name `text@[1..to)`.
fn command_of_name(text: &str, to: usize) -> (r: Command)
    requires
        1 <= to <= text@.len(),
    ensures
        r@ == name_command(text@.subrange(1, to as int)),
{
    let name = text.substring_char(1, to);
    if eq_range(name, 0, name.unicode_len(), "start") {
        proof {
            assert(name@.subrange(0, name@.len() as int) =~= name@);
        }
        Command::Start
    } else if eq_range(name, 0, name.unicode_len(), "stop") {
        proof {
            assert(name@.subrange(0, name@.len() as int) =~= name@);
        }
        Command::Stop
    } else {
        proof {
            assert(name@.subrange(0, name@.len() as int) =~= name@);
        }
        Command::Unknown(String::from_str(name))
    }
}

/// Parse `text` as a command addressed to this bot.
///
/// Pure: the result is a function of the text, the chat's directness and
/// the bot's username alone, with no side effect.
pub fn parse(text: &str, chat: &ChatIdentity, bot_username: &str) -> (r: Command)
    ensures
        r@ == parse_spec(text@, chat.is_private_spec(), bot_username@),
{
    let n: usize = text.unicode_len();
    if n < 2 {
        return Command::Plain;
    }
    if text.get_char(0) != '/' {
        return Command::Plain;
    }
    let ghost rest = text@.skip(1);
    proof {
        assert(rest.len() == n - 1);
        assert(forall|j: int| 0 <= j < rest.len() ==> rest[j] == text@[j + 1]);
    }
    match find_char_from(text, 1, n, '@') {
        Option::None => {
            // No mention: the whole tail is the candidate name.
            let all_word = word_range(text, 1, n);
            proof {
                assert(text@.subrange(1, n as int) =~= rest);
                assert(!(exists|i: int| mention_split_at(rest, i))) by {
                    if exists|i: int| mention_split_at(rest, i) {
                        let i = choose|i: int| mention_split_at(rest, i);
                        assert(text@[i + 1] == '@');
                    }
                }
            }
            if all_word && chat.is_private() {
                command_of_name(text, n)
            } else {
                Command::Plain
            }
        },
        Option::Some(a) => {
            // First mention mark at `a`: name before it, mention after it.
            proof {
                assert(rest[a - 1] == '@');
                assert(!is_word_char('@'));
                assert(!all_word_chars(rest));
            }
            let name_ok = if a > 1 {
                word_range(text, 1, a)
            } else {
                false
            };
            let mention_ok = if a + 1 < n {
                word_range(text, a + 1, n)
            } else {
                false
            };
            if name_ok && mention_ok {
                proof {
                    assert(rest.take(a - 1) =~= text@.subrange(1, a as int));
                    assert(rest.skip(a - 1 + 1) =~= text@.subrange(a + 1, n as int));
                    assert(mention_split_at(rest, a - 1));
                    let i = choose|i: int| mention_split_at(rest, i);
                    lemma_mention_split_unique(rest, i, a - 1);
                }
                if eq_range(text, a + 1, n, bot_username) {
                    command_of_name(text, a)
                } else {
                    Command::Plain
                }
            } else {
                proof {
                    assert(!(exists|i: int| mention_split_at(rest, i))) by {
                        if exists|i: int| mention_split_at(rest, i) {
                            let i = choose|i: int| mention_split_at(rest, i);
                            // The split can only sit at the first mention mark.
                            if i + 1 > a {
                                assert(rest.take(i)[a - 1] == rest[a - 1]);
                                assert(!all_word_chars(rest.take(i)));
                            } else if i + 1 < a {
                                assert(text@[i + 1] == '@');
                            } else {
                                assert(rest.take(a - 1) =~= text@.subrange(1, a as int));
                                assert(rest.skip(a - 1 + 1) =~= text@.subrange(a + 1, n as int));
                            }
                        }
                    }
                }
                Command::Plain
            }
        },
    }
}

/// Parsing is pure: one input, one result, on every call.
pub proof fn lemma_parse_deterministic(
    text: Seq<char>,
    private: bool,
    bot: Seq<char>,
)
    ensures
        parse_spec(text, private, bot) == parse_spec(text, private, bot),
{
}

} // verus!
