//! The in-memory per-chat state: cached administrator sets and the set of
//! chats subscribed to notifications.
//!
//! An absent admin entry means "administrators unknown, not yet fetched";
//! until the asynchronous fetch completes, authorization in that chat fails
//! closed. Private chats never need an admin record: privacy implies
//! authorization.
//!
//! The registry is a pair of vectors with uniqueness invariants; its
//! mathematical model is a [`RegistryModel`]: a map from chat identity to
//! admin set, and the subscription list in insertion order.

use vstd::prelude::*;

verus! {

use crate::chat::{ChatIdentity, UserIdentity};
use vstd::pervasive::VecAdditionalExecFns;

/// The cached administrator list of one group-like chat.
pub struct ChatRecord {
    pub chat: ChatIdentity,
    pub admins: Vec<UserIdentity>,
}

/// The mathematical state of the registry.
#[verifier::ext_equal]
pub ghost struct RegistryModel {
    /// Cached administrator sets, keyed by chat; a missing key means the
    /// fetch has not completed.
    pub admins: Map<ChatIdentity, Set<UserIdentity>>,
    /// Chats subscribed to notifications, in subscription order, each at
    /// most once.
    pub active: Seq<ChatIdentity>,
}

impl RegistryModel {
    /// Private chats always authorize; group-like chats authorize exactly
    /// the members of the cached admin set, and nobody while it is absent.
    pub open spec fn is_authorized(self, chat: ChatIdentity, user: UserIdentity) -> bool {
        chat.is_private_spec() || (self.admins.contains_key(chat) && self.admins[chat].contains(
            user,
        ))
    }

    /// Whether the chat is subscribed to notifications.
    pub open spec fn is_active(self, chat: ChatIdentity) -> bool {
        self.active.contains(chat)
    }

    /// A group-like chat with no cached admin set still owes a fetch.
    pub open spec fn needs_admin_fetch(self, chat: ChatIdentity) -> bool {
        chat.is_group_like_spec() && !self.admins.contains_key(chat)
    }

    /// Subscribe the chat; a chat already subscribed stays as it is.
    pub open spec fn activate(self, chat: ChatIdentity) -> RegistryModel {
        RegistryModel {
            admins: self.admins,
            active: if self.active.contains(chat) {
                self.active
            } else {
                self.active.push(chat)
            },
        }
    }

    /// Unsubscribe the chat; a chat not subscribed stays as it is.
    pub open spec fn deactivate(self, chat: ChatIdentity) -> RegistryModel {
        RegistryModel { admins: self.admins, active: self.active.remove_value(chat) }
    }

    /// Record the completed admin fetch of the chat.
    pub open spec fn resolve(self, chat: ChatIdentity, admins: Set<UserIdentity>) -> RegistryModel {
        RegistryModel { admins: self.admins.insert(chat, admins), active: self.active }
    }

    /// Drop every trace of the chat: admin cache and subscription.
    pub open spec fn forget(self, chat: ChatIdentity) -> RegistryModel {
        RegistryModel {
            admins: self.admins.remove(chat),
            active: self.active.remove_value(chat),
        }
    }

    /// The state of a freshly started bot: nothing cached, nothing active.
    pub open spec fn empty() -> RegistryModel {
        RegistryModel { admins: Map::empty(), active: Seq::empty() }
    }
}

/// No two records cache the same chat.
pub open spec fn unique_chats(rs: Seq<ChatRecord>) -> bool {
    forall|i: int, j: int| 0 <= i < j < rs.len() ==> rs[i].chat != rs[j].chat
}

/// The admin cache a record vector stands for, later records replacing
/// earlier ones of the same chat.
pub open spec fn records_map(rs: Seq<ChatRecord>) -> Map<ChatIdentity, Set<UserIdentity>>
    decreases rs.len(),
{
    if rs.len() == 0 {
        Map::empty()
    } else {
        records_map(rs.drop_last()).insert(rs.last().chat, rs.last().admins@.to_set())
    }
}

/// What [`ChatRegistry::ensure_admins`] found for a chat.
#[derive(Debug, PartialEq)]
pub enum AdminResolution {
    /// A private chat: implicitly authorized, no record needed, no fetch.
    Private,
    /// A group-like chat with its admin set already cached.
    Cached(Vec<UserIdentity>),
    /// A group-like chat with nothing cached: a fetch is owed, and until
    /// it completes authorization in this chat fails closed.
    Pending,
}

/// The registry itself: the admin cache and the subscription list.
pub struct ChatRegistry {
    records: Vec<ChatRecord>,
    active: Vec<ChatIdentity>,
}

impl View for ChatRegistry {
    type V = RegistryModel;

    closed spec fn view(&self) -> RegistryModel {
        RegistryModel { admins: records_map(self.records@), active: self.active@ }
    }
}

proof fn lemma_map_contains(rs: Seq<ChatRecord>, c: ChatIdentity)
    ensures
        records_map(rs).contains_key(c) <==> exists|i: int|
            0 <= i < rs.len() && (#[trigger] rs[i]).chat == c,
    decreases rs.len(),
{
    if rs.len() > 0 {
        lemma_map_contains(rs.drop_last(), c);
        if records_map(rs).contains_key(c) {
            if rs.last().chat == c {
                assert(rs[rs.len() - 1].chat == c);
            } else {
                let i = choose|i: int|
                    0 <= i < rs.drop_last().len() && (#[trigger] rs.drop_last()[i]).chat == c;
                assert(rs[i].chat == c);
            }
        }
        if exists|i: int| 0 <= i < rs.len() && (#[trigger] rs[i]).chat == c {
            let i = choose|i: int| 0 <= i < rs.len() && (#[trigger] rs[i]).chat == c;
            if i < rs.len() - 1 {
                assert(rs.drop_last()[i].chat == c);
            }
        }
    }
}

proof fn lemma_map_value(rs: Seq<ChatRecord>, i: int)
    requires
        unique_chats(rs),
        0 <= i < rs.len(),
    ensures
        records_map(rs).contains_key(rs[i].chat),
        records_map(rs)[rs[i].chat] == rs[i].admins@.to_set(),
    decreases rs.len(),
{
    if i == rs.len() - 1 {
        assert(rs.last() == rs[i]);
    } else {
        lemma_map_value(rs.drop_last(), i);
        assert(rs.drop_last()[i] == rs[i]);
        assert(rs.last().chat != rs[i].chat);
    }
}

proof fn lemma_map_push(rs: Seq<ChatRecord>, r: ChatRecord)
    ensures
        records_map(rs.push(r)) == records_map(rs).insert(r.chat, r.admins@.to_set()),
{
    assert(rs.push(r).drop_last() =~= rs);
    assert(rs.push(r).last() == r);
}

proof fn lemma_map_update(rs: Seq<ChatRecord>, i: int, r: ChatRecord)
    requires
        unique_chats(rs),
        0 <= i < rs.len(),
        r.chat == rs[i].chat,
    ensures
        records_map(rs.update(i, r)) == records_map(rs).insert(r.chat, r.admins@.to_set()),
        unique_chats(rs.update(i, r)),
    decreases rs.len(),
{
    let c = r.chat;
    if i == rs.len() - 1 {
        assert(rs.update(i, r).drop_last() =~= rs.drop_last());
        assert(rs.update(i, r).last() == r);
        assert(records_map(rs.drop_last()).insert(c, rs.last().admins@.to_set()).insert(
            c,
            r.admins@.to_set(),
        ) =~= records_map(rs.drop_last()).insert(c, r.admins@.to_set()));
    } else {
        assert(rs.update(i, r).drop_last() =~= rs.drop_last().update(i, r));
        assert(rs.update(i, r).last() == rs.last());
        lemma_map_update(rs.drop_last(), i, r);
        assert(rs.last().chat != c);
        assert(records_map(rs.drop_last()).insert(c, r.admins@.to_set()).insert(
            rs.last().chat,
            rs.last().admins@.to_set(),
        ) =~= records_map(rs.drop_last()).insert(rs.last().chat, rs.last().admins@.to_set()).insert(
            c,
            r.admins@.to_set(),
        ));
    }
}

proof fn lemma_map_remove(rs: Seq<ChatRecord>, i: int)
    requires
        unique_chats(rs),
        0 <= i < rs.len(),
    ensures
        records_map(rs.remove(i)) == records_map(rs).remove(rs[i].chat),
        unique_chats(rs.remove(i)),
    decreases rs.len(),
{
    let c = rs[i].chat;
    rs.remove_ensures(i);
    if i == rs.len() - 1 {
        assert(rs.remove(i) =~= rs.drop_last());
        lemma_map_contains(rs.drop_last(), c);
        assert(forall|j: int|
            0 <= j < rs.drop_last().len() ==> (#[trigger] rs.drop_last()[j]).chat != c);
        assert(records_map(rs.drop_last()).insert(c, rs.last().admins@.to_set()).remove(c)
            =~= records_map(rs.drop_last()));
    } else {
        assert(rs.remove(i).drop_last() =~= rs.drop_last().remove(i));
        assert(rs.remove(i).last() == rs.last());
        lemma_map_remove(rs.drop_last(), i);
        assert(rs.last().chat != c);
        assert(records_map(rs.drop_last()).remove(c).insert(
            rs.last().chat,
            rs.last().admins@.to_set(),
        ) =~= records_map(rs.drop_last()).insert(rs.last().chat, rs.last().admins@.to_set()).remove(
            c,
        ));
    }
}

proof fn lemma_no_dup_remove(s: Seq<ChatIdentity>, i: int)
    requires
        s.no_duplicates(),
        0 <= i < s.len(),
    ensures
        s.remove(i).no_duplicates(),
{
    s.remove_ensures(i);
    assert forall|p: int, q: int|
        0 <= p < q < s.remove(i).len() implies s.remove(i)[p] != s.remove(i)[q] by {
        if q < i {
        } else if p >= i {
            assert(s.remove(i)[p] == s[p + 1]);
            assert(s.remove(i)[q] == s[q + 1]);
        } else {
            assert(s.remove(i)[p] == s[p]);
            assert(s.remove(i)[q] == s[q + 1]);
        }
    }
}

impl ChatRegistry {
    /// Both stores keep each chat at most once.
    pub closed spec fn wf(&self) -> bool {
        unique_chats(self.records@) && self.active@.no_duplicates()
    }

    /// A registry with nothing cached and nothing subscribed.
    pub fn new() -> (r: ChatRegistry)
        ensures
            r.wf(),
            r@ =~= RegistryModel::empty(),
    {
        ChatRegistry { records: Vec::new(), active: Vec::new() }
    }

    fn find_record_index(&self, chat: &ChatIdentity) -> (r: Option<usize>)
        ensures
            match r {
                Some(i) => i < self.records@.len() && self.records@[i as int].chat == *chat,
                None => forall|i: int|
                    0 <= i < self.records@.len() ==> (#[trigger] self.records@[i]).chat != *chat,
            },
    {
        let mut i: usize = 0;
        while i < self.records.len()
            invariant
                i <= self.records@.len(),
                forall|j: int| 0 <= j < i ==> (#[trigger] self.records@[j]).chat != *chat,
            decreases self.records@.len() - i,
        {
            if self.records[i].chat == *chat {
                return Some(i);
            }
            i = i + 1;
        }
        None
    }

    fn find_active_index(&self, chat: &ChatIdentity) -> (r: Option<usize>)
        ensures
            match r {
                Some(i) => i < self.active@.len() && self.active@[i as int] == *chat && forall|
                    j: int,
                |
                    0 <= j < i ==> self.active@[j] != *chat,
                None => !self.active@.contains(*chat),
            },
    {
        let mut i: usize = 0;
        while i < self.active.len()
            invariant
                i <= self.active@.len(),
                forall|j: int| 0 <= j < i ==> self.active@[j] != *chat,
            decreases self.active@.len() - i,
        {
            if self.active[i] == *chat {
                return Some(i);
            }
            i = i + 1;
        }
        None
    }

    fn contains_user(admins: &Vec<UserIdentity>, user: &UserIdentity) -> (r: bool)
        ensures
            r == admins@.contains(*user),
    {
        let mut i: usize = 0;
        while i < admins.len()
            invariant
                i <= admins@.len(),
                forall|j: int| 0 <= j < i ==> admins@[j] != *user,
            decreases admins@.len() - i,
        {
            if admins[i] == *user {
                return true;
            }
            i = i + 1;
        }
        false
    }

    /// Whether `user` may issue administrator commands in `chat`: always in
    /// a private chat, and in a group-like chat exactly when the cached
    /// admin set holds the user — unauthorized, not an error, while the
    /// set is still unfetched.
    pub fn is_authorized(&self, chat: &ChatIdentity, user: &UserIdentity) -> (r: bool)
        requires
            self.wf(),
        ensures
            r == self@.is_authorized(*chat, *user),
    {
        if chat.is_private() {
            return true;
        }
        match self.find_record_index(chat) {
            Option::Some(i) => {
                proof {
                    lemma_map_value(self.records@, i as int);
                }
                Self::contains_user(&self.records[i].admins, user)
            },
            Option::None => {
                proof {
                    lemma_map_contains(self.records@, *chat);
                }
                false
            },
        }
    }

    /// Whether the chat is subscribed to notifications.
    pub fn is_active(&self, chat: &ChatIdentity) -> (r: bool)
        ensures
            r == self@.is_active(*chat),
    {
        match self.find_active_index(chat) {
            Option::Some(_) => true,
            Option::None => false,
        }
    }

    /// Whether a first update from this chat must trigger an admin fetch:
    /// only group-like chats, and only while nothing is cached for them.
    pub fn needs_admin_fetch(&self, chat: &ChatIdentity) -> (r: bool)
        ensures
            r == self@.needs_admin_fetch(*chat),
    {
        if !chat.is_group_like() {
            proof {
                lemma_map_contains(self.records@, *chat);
            }
            return false;
        }
        match self.find_record_index(chat) {
            Option::Some(_) => {
                proof {
                    lemma_map_contains(self.records@, *chat);
                }
                false
            },
            Option::None => {
                proof {
                    lemma_map_contains(self.records@, *chat);
                }
                true
            },
        }
    }

    /// What the chat needs before authorization can succeed: nothing for a
    /// private chat, the cached admin set where one is held, and otherwise
    /// an asynchronous fetch, which the caller issues and completes
    /// through [`ChatRegistry::admins_resolved`].
    pub fn ensure_admins(&self, chat: &ChatIdentity) -> (r: AdminResolution)
        requires
            self.wf(),
        ensures
            match r {
                AdminResolution::Private => chat.is_private_spec(),
                AdminResolution::Cached(admins) => !chat.is_private_spec()
                    && self@.admins.contains_key(*chat) && admins@.to_set() == self@.admins[*chat],
                AdminResolution::Pending => !chat.is_private_spec() && !self@.admins.contains_key(
                    *chat,
                ),
            },
    {
        if chat.is_private() {
            return AdminResolution::Private;
        }
        match self.find_record_index(chat) {
            Option::Some(i) => {
                proof {
                    lemma_map_value(self.records@, i as int);
                }
                let stored = &self.records[i].admins;
                let mut admins: Vec<UserIdentity> = Vec::new();
                let mut k: usize = 0;
                while k < stored.len()
                    invariant
                        k <= stored@.len(),
                        admins@ == stored@.take(k as int),
                    decreases stored@.len() - k,
                {
                    admins.push(stored[k]);
                    proof {
                        assert(admins@ =~= stored@.take(k as int + 1));
                    }
                    k = k + 1;
                }
                proof {
                    assert(stored@.take(stored@.len() as int) =~= stored@);
                }
                AdminResolution::Cached(admins)
            },
            Option::None => {
                proof {
                    lemma_map_contains(self.records@, *chat);
                }
                AdminResolution::Pending
            },
        }
    }

    /// Record the admin set a completed fetch returned, replacing any
    /// earlier cache for the chat.
    pub fn admins_resolved(&mut self, chat: ChatIdentity, admins: Vec<UserIdentity>)
        requires
            old(self).wf(),
        ensures
            final(self).wf(),
            final(self)@ =~= old(self)@.resolve(chat, admins@.to_set()),
    {
        let ghost rs = self.records@;
        let ghost adm = admins@;
        match self.find_record_index(&chat) {
            Option::Some(i) => {
                self.records.set(i, ChatRecord { chat, admins });
                proof {
                    lemma_map_update(rs, i as int, self.records@[i as int]);
                    assert(self.records@ =~= rs.update(i as int, self.records@[i as int]));
                }
            },
            Option::None => {
                self.records.push(ChatRecord { chat, admins });
                proof {
                    let r = self.records@.last();
                    lemma_map_push(rs, r);
                    assert(self.records@ =~= rs.push(r));
                    assert forall|p: int, q: int|
                        0 <= p < q < self.records@.len() implies self.records@[p].chat
                        != self.records@[q].chat by {
                        if q == self.records@.len() - 1 {
                            assert(rs[p].chat != chat);
                        }
                    }
                }
            },
        }
    }

    /// Toggle the subscription of the chat; both directions are idempotent.
    pub fn set_active(&mut self, chat: ChatIdentity, active: bool)
        requires
            old(self).wf(),
        ensures
            final(self).wf(),
            final(self)@ == if active {
                old(self)@.activate(chat)
            } else {
                old(self)@.deactivate(chat)
            },
    {
        let ghost act = self.active@;
        match self.find_active_index(&chat) {
            Option::Some(i) => {
                if !active {
                    proof {
                        lemma_remove_first_is_remove_value(act, chat, i as int);
                        lemma_no_dup_remove(act, i as int);
                    }
                    self.active.remove(i);
                }
                proof {
                    assert(act.contains(chat)) by {
                        assert(act[i as int] == chat);
                    }
                    if active {
                        assert(self@ =~= old(self)@.activate(chat));
                    } else {
                        assert(self@ =~= old(self)@.deactivate(chat));
                    }
                }
            },
            Option::None => {
                if active {
                    self.active.push(chat);
                    proof {
                        assert forall|p: int, q: int|
                            0 <= p < q < self.active@.len() implies self.active@[p]
                            != self.active@[q] by {
                            if q == self.active@.len() - 1 {
                                if act[p] == chat {
                                    assert(act.contains(chat));
                                }
                            }
                        }
                        assert(self@ =~= old(self)@.activate(chat));
                    }
                } else {
                    proof {
                        act.index_of_first_ensures(chat);
                        assert(self@ =~= old(self)@.deactivate(chat));
                    }
                }
            },
        }
    }

    /// Drop the chat entirely: its admin cache and its subscription. Called
    /// when the bot's own account is removed from the chat.
    pub fn forget(&mut self, chat: ChatIdentity)
        requires
            old(self).wf(),
        ensures
            final(self).wf(),
            final(self)@ =~= old(self)@.forget(chat),
    {
        let ghost rs = self.records@;
        match self.find_record_index(&chat) {
            Option::Some(i) => {
                proof {
                    lemma_map_remove(rs, i as int);
                }
                self.records.remove(i);
            },
            Option::None => {
                proof {
                    lemma_map_contains(rs, chat);
                    assert(records_map(rs).remove(chat) =~= records_map(rs));
                }
            },
        }
        let ghost act = self.active@;
        match self.find_active_index(&chat) {
            Option::Some(i) => {
                proof {
                    lemma_remove_first_is_remove_value(act, chat, i as int);
                    lemma_no_dup_remove(act, i as int);
                }
                self.active.remove(i);
            },
            Option::None => {
                proof {
                    act.index_of_first_ensures(chat);
                }
            },
        }
    }

    /// Well-formedness keeps the subscription list free of duplicates: a
    /// chat is subscribed once or not at all.
    pub proof fn lemma_wf_active_no_dup(&self)
        requires
            self.wf(),
        ensures
            self@.active.no_duplicates(),
    {
    }

    /// The subscribed chats, in subscription order, for one broadcast round.
    pub fn active_chats(&self) -> (r: Vec<ChatIdentity>)
        ensures
            r@ == self@.active,
    {
        let mut out: Vec<ChatIdentity> = Vec::new();
        let mut i: usize = 0;
        while i < self.active.len()
            invariant
                i <= self.active@.len(),
                out@ == self.active@.take(i as int),
            decreases self.active@.len() - i,
        {
            out.push(self.active[i]);
            proof {
                assert(out@ =~= self.active@.take(i + 1 as int));
            }
            i = i + 1;
        }
        proof {
            assert(self.active@.take(self.active@.len() as int) =~= self.active@);
        }
        out
    }
}

/// Removing the first occurrence found by a forward search is exactly
/// `Seq::remove_value`.
proof fn lemma_remove_first_is_remove_value(s: Seq<ChatIdentity>, c: ChatIdentity, i: int)
    requires
        0 <= i < s.len(),
        s[i] == c,
        forall|j: int| 0 <= j < i ==> s[j] != c,
    ensures
        s.remove_value(c) == s.remove(i),
{
    assert(s.contains(c)) by {
        assert(s[i] == c);
    }
    s.index_of_first_ensures(c);
    let idx = s.index_of_first(c)->Some_0;
    if idx < i {
        assert(s[idx] == c);
    } else if idx > i {
        assert(s[i] == c);
    }
}

/// A private chat authorizes every user, whatever the registry holds.
pub proof fn lemma_private_always_authorized(m: RegistryModel, chat: ChatIdentity, user: UserIdentity)
    requires
        chat.is_private_spec(),
    ensures
        m.is_authorized(chat, user),
{
}

/// A group-like chat whose admin fetch has not completed authorizes
/// nobody: authorization fails closed.
pub proof fn lemma_unresolved_group_fails_closed(
    m: RegistryModel,
    chat: ChatIdentity,
    user: UserIdentity,
)
    requires
        chat.is_group_like_spec(),
        !m.admins.contains_key(chat),
    ensures
        !m.is_authorized(chat, user),
{
}

/// Subscribing twice is the same as subscribing once.
pub proof fn lemma_activate_idempotent(m: RegistryModel, chat: ChatIdentity)
    ensures
        m.activate(chat).activate(chat) == m.activate(chat),
{
    assert(m.activate(chat).active.contains(chat)) by {
        if !m.active.contains(chat) {
            assert(m.activate(chat).active[m.active.len() as int] == chat);
        }
    }
    assert(m.activate(chat).activate(chat) =~= m.activate(chat));
}

/// Unsubscribing a chat that is not subscribed changes nothing.
pub proof fn lemma_deactivate_absent_is_noop(m: RegistryModel, chat: ChatIdentity)
    requires
        !m.is_active(chat),
    ensures
        m.deactivate(chat) == m,
{
    m.active.index_of_first_ensures(chat);
    assert(m.deactivate(chat) =~= m);
}

} // verus!
