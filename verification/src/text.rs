//! The outbound texts of the bot: fixed notices, the formatted fork
//! notification, and the passive trigger check on plain messages.

use vstd::prelude::*;

verus! {

use vstd::string::StrSliceExecFns;
use vstd::string::StringExecFns;
use crate::events::Event;

/// Confirmation after an authorized `/start` in an inactive chat.
pub open spec fn starting_text() -> Seq<char> {
    "Starting bot in this chat!"@
}

/// Notice after an authorized `/start` in a chat already active.
pub open spec fn already_running_text() -> Seq<char> {
    "Bot already running in this chat!"@
}

/// Confirmation after an authorized `/stop` in an active chat.
pub open spec fn stopping_text() -> Seq<char> {
    "Stopping bot in this chat!"@
}

/// Notice after an authorized `/stop` in a chat not active.
pub open spec fn not_running_text() -> Seq<char> {
    "Bot is not running in this chat!"@
}

/// Rejection sent to a user who is not an administrator.
pub open spec fn unauthorized_text() -> Seq<char> {
    "You are not authorized to do this! Only administrators are allowed to use this command!"@
}

/// Notice naming a directed command the bot does not know.
pub open spec fn invalid_command_text(name: Seq<char>) -> Seq<char> {
    "Invalid command `"@ + name + "`!"@
}

/// The substring of a plain message that asks for a gif.
pub open spec fn gif_trigger() -> Seq<char> {
    "gabeln.jetzt"@
}

/// The notification broadcast for one fork event; meaningful only for
/// events that carry a forkee.
pub open spec fn event_text_spec(e: &Event) -> Seq<char> {
    "**"@ + e.actor.display_login@ + "** forked __"@ + e.repo.name@ + "__ at ["@
        + e.payload.forkee->Some_0.full_name@ + "]("@ + e.payload.forkee->Some_0.html_url@ + ")!"@
}

pub fn starting() -> (r: String)
    ensures
        r@ == starting_text(),
{
    String::from_str("Starting bot in this chat!")
}

pub fn already_running() -> (r: String)
    ensures
        r@ == already_running_text(),
{
    String::from_str("Bot already running in this chat!")
}

pub fn stopping() -> (r: String)
    ensures
        r@ == stopping_text(),
{
    String::from_str("Stopping bot in this chat!")
}

pub fn not_running() -> (r: String)
    ensures
        r@ == not_running_text(),
{
    String::from_str("Bot is not running in this chat!")
}

pub fn unauthorized() -> (r: String)
    ensures
        r@ == unauthorized_text(),
{
    String::from_str(
        "You are not authorized to do this! Only administrators are allowed to use this command!",
    )
}

/// Build the notice for an unknown directed command.
pub fn invalid_command(name: &str) -> (r: String)
    ensures
        r@ == invalid_command_text(name@),
{
    let mut out = String::from_str("Invalid command `");
    out.append(name);
    out.append("`!");
    out
}

/// Build the notification text for one fork event.
pub fn format_event(e: &Event) -> (r: String)
    requires
        e.payload.forkee is Some,
    ensures
        r@ == event_text_spec(e),
{
    let mut out = String::from_str("**");
    out.append(e.actor.display_login.as_str());
    out.append("** forked __");
    out.append(e.repo.name.as_str());
    out.append("__ at [");
    match &e.payload.forkee {
        Option::Some(f) => {
            out.append(f.full_name.as_str());
            out.append("](");
            out.append(f.html_url.as_str());
            out.append(")!");
            out
        },
        Option::None => vstd::pervasive::unreached(),
    }
}

/// `needle` occurs somewhere in `hay`.
pub open spec fn contains_seq(hay: Seq<char>, needle: Seq<char>) -> bool {
    exists|i: int|
        0 <= i && i + needle.len() <= hay.len() && #[trigger] hay.subrange(i, i + needle.len())
            == needle
}

/// Whether `needle` occurs in `hay`, by a straightforward scan.
pub fn contains_str(hay: &str, needle: &str) -> (r: bool)
    ensures
        r == contains_seq(hay@, needle@),
{
    let hn: usize = hay.unicode_len();
    let nn: usize = needle.unicode_len();
    if nn > hn {
        return false;
    }
    if nn == 0 {
        proof {
            assert(hay@.subrange(0, 0 + needle@.len() as int) =~= needle@);
        }
        return true;
    }
    let mut i: usize = 0;
    while i <= hn - nn
        invariant
            0 <= i <= hn - nn + 1,
            1 <= nn <= hn,
            hn == hay@.len(),
            nn == needle@.len(),
            forall|k: int|
                0 <= k < i ==> #[trigger] hay@.subrange(k, k + needle@.len()) != needle@,
        decreases hn - nn - i + 1,
    {
        if crate::command::eq_range(hay, i, i + nn, needle) {
            return true;
        }
        i = i + 1;
    }
    false
}

/// Whether a plain message asks for a gif: it mentions the site.
pub fn contains_gif_trigger(text: &str) -> (r: bool)
    ensures
        r == contains_seq(text@, gif_trigger()),
{
    contains_str(text, "gabeln.jetzt")
}

} // verus!
