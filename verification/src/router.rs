//! The session router: the stateful core of the bot.
//!
//! A single processing loop consumes a merged stream of platform updates
//! and domain events. Each item is classified here and turned into a state
//! change of the registry plus a list of outbound actions: texts to send,
//! one gif broadcast per event round, and the lazy administrator fetches.
//! The surrounding process performs the actions; the admin fetch completes
//! out of band and hands its result back through [`SessionRouter::admins_resolved`],
//! so a command arriving before completion fails closed instead of
//! blocking the loop.

use vstd::prelude::*;

verus! {

use crate::chat::{ChatIdentity, UserIdentity};
use crate::command::{parse, parse_spec, Command, CommandModel};
use crate::events::Event;
use crate::registry::{ChatRegistry, RegistryModel};
use crate::text;

/// What a platform message holds, as far as the router cares.
#[derive(Debug, PartialEq)]
pub enum MessageBody {
    /// A text message: a candidate command or trigger text.
    Text { content: String },
    /// A member left (or was removed from) the chat.
    LeftChatMember { left: UserIdentity },
    /// Any other message kind: a no-op.
    Other,
}

/// One update from the chat platform, reduced to plain values.
#[derive(Debug, PartialEq)]
pub enum PlatformUpdate {
    Message { chat: ChatIdentity, from: UserIdentity, body: MessageBody },
    EditedMessage { chat: ChatIdentity, from: UserIdentity, body: MessageBody },
    /// Any other update kind: a no-op.
    Other,
}

/// The unit of the merged stream: a platform update or a domain event.
#[derive(Debug, PartialEq)]
pub enum BotUpdate {
    Update(PlatformUpdate),
    Event(Event),
}

/// One outbound effect the loop must perform.
#[derive(Debug, PartialEq)]
pub enum Action {
    /// Send `text` to `chat`, with markdown markup when asked.
    SendText { chat: ChatIdentity, text: String, markdown: bool },
    /// Fetch one gif and send the same gif to each listed chat; a failed
    /// fetch is logged and skipped, the texts having gone out already.
    SendGif { chats: Vec<ChatIdentity> },
    /// Fetch the administrator list of `chat` asynchronously and hand the
    /// result to [`SessionRouter::admins_resolved`].
    FetchAdmins { chat: ChatIdentity },
}

/// The mathematical value of an action.
#[verifier::ext_equal]
pub ghost enum ActionModel {
    SendText { chat: ChatIdentity, text: Seq<char>, markdown: bool },
    SendGif { chats: Seq<ChatIdentity> },
    FetchAdmins { chat: ChatIdentity },
}

impl View for Action {
    type V = ActionModel;

    open spec fn view(&self) -> ActionModel {
        match self {
            Action::SendText { chat, text, markdown } => ActionModel::SendText {
                chat: *chat,
                text: text@,
                markdown: *markdown,
            },
            Action::SendGif { chats } => ActionModel::SendGif { chats: chats@ },
            Action::FetchAdmins { chat } => ActionModel::FetchAdmins { chat: *chat },
        }
    }
}

/// The mathematical values of a list of actions.
pub open spec fn actions_model(s: Seq<Action>) -> Seq<ActionModel> {
    s.map_values(|a: Action| a@)
}

/// A plain notice to one chat.
pub open spec fn notice(chat: ChatIdentity, text: Seq<char>) -> ActionModel {
    ActionModel::SendText { chat, text, markdown: false }
}

/// The mathematical state of the router.
#[verifier::ext_equal]
pub ghost struct RouterState {
    pub registry: RegistryModel,
    /// The bot's own account, to recognize its removal from a chat.
    pub me: UserIdentity,
    /// The bot's username, to test mention directness.
    pub bot: Seq<char>,
}

/// The chat an update concerns, if any.
pub open spec fn chat_of(u: &PlatformUpdate) -> Option<ChatIdentity> {
    match u {
        PlatformUpdate::Message { chat, .. } => Option::Some(*chat),
        PlatformUpdate::EditedMessage { chat, .. } => Option::Some(*chat),
        PlatformUpdate::Other => Option::None,
    }
}

/// The admin fetch a platform update triggers: the first update seen from
/// a group-like chat starts one; nothing else does.
pub open spec fn fetch_actions(s: RouterState, u: &PlatformUpdate) -> Seq<ActionModel> {
    match chat_of(u) {
        Option::Some(c) => if s.registry.needs_admin_fetch(c) {
            seq![ActionModel::FetchAdmins { chat: c }]
        } else {
            Seq::empty()
        },
        Option::None => Seq::empty(),
    }
}

/// The state after a text message: only an authorized `/start` or `/stop`
/// moves the subscription; everything else leaves the state alone.
pub open spec fn text_step(
    s: RouterState,
    chat: ChatIdentity,
    from: UserIdentity,
    content: Seq<char>,
) -> RouterState {
    match parse_spec(content, chat.is_private_spec(), s.bot) {
        CommandModel::Start => if s.registry.is_authorized(chat, from) && !s.registry.is_active(
            chat,
        ) {
            RouterState { registry: s.registry.activate(chat), ..s }
        } else {
            s
        },
        CommandModel::Stop => if s.registry.is_authorized(chat, from) && s.registry.is_active(
            chat,
        ) {
            RouterState { registry: s.registry.deactivate(chat), ..s }
        } else {
            s
        },
        CommandModel::Unknown(_) => s,
        CommandModel::Plain => s,
    }
}

/// The actions a text message produces: exactly one notice for a directed
/// command, a single-chat gif send for trigger text in an active chat, and
/// nothing otherwise.
pub open spec fn text_actions(
    s: RouterState,
    chat: ChatIdentity,
    from: UserIdentity,
    content: Seq<char>,
) -> Seq<ActionModel> {
    match parse_spec(content, chat.is_private_spec(), s.bot) {
        CommandModel::Start => if !s.registry.is_authorized(chat, from) {
            seq![notice(chat, text::unauthorized_text())]
        } else if s.registry.is_active(chat) {
            seq![notice(chat, text::already_running_text())]
        } else {
            seq![notice(chat, text::starting_text())]
        },
        CommandModel::Stop => if !s.registry.is_authorized(chat, from) {
            seq![notice(chat, text::unauthorized_text())]
        } else if s.registry.is_active(chat) {
            seq![notice(chat, text::stopping_text())]
        } else {
            seq![notice(chat, text::not_running_text())]
        },
        CommandModel::Unknown(name) => seq![notice(chat, text::invalid_command_text(name))],
        CommandModel::Plain => if s.registry.is_active(chat) && text::contains_seq(
            content,
            text::gif_trigger(),
        ) {
            seq![ActionModel::SendGif { chats: seq![chat] }]
        } else {
            Seq::empty()
        },
    }
}

/// The state after one platform message.
pub open spec fn message_step(
    s: RouterState,
    chat: ChatIdentity,
    from: UserIdentity,
    body: &MessageBody,
) -> RouterState {
    match body {
        MessageBody::Text { content } => text_step(s, chat, from, content@),
        MessageBody::LeftChatMember { left } => if *left == s.me {
            RouterState { registry: s.registry.forget(chat), ..s }
        } else {
            s
        },
        MessageBody::Other => s,
    }
}

/// The actions one platform message produces.
pub open spec fn message_actions(
    s: RouterState,
    chat: ChatIdentity,
    from: UserIdentity,
    body: &MessageBody,
) -> Seq<ActionModel> {
    match body {
        MessageBody::Text { content } => text_actions(s, chat, from, content@),
        MessageBody::LeftChatMember { .. } => Seq::empty(),
        MessageBody::Other => Seq::empty(),
    }
}

/// One fork notification per active chat, in subscription order, then one
/// shared gif fetched once and sent to every active chat.
pub open spec fn broadcast_actions(s: RouterState, e: &Event) -> Seq<ActionModel> {
    s.registry.active.map_values(
        |c: ChatIdentity| ActionModel::SendText {
            chat: c,
            text: text::event_text_spec(e),
            markdown: true,
        },
    ).push(ActionModel::SendGif { chats: s.registry.active })
}

/// The state after one merged-stream item.
pub open spec fn step_state(s: RouterState, u: &BotUpdate) -> RouterState {
    match u {
        BotUpdate::Update(pu) => match pu {
            PlatformUpdate::Message { chat, from, body } => message_step(s, *chat, *from, body),
            PlatformUpdate::EditedMessage { .. } => s,
            PlatformUpdate::Other => s,
        },
        BotUpdate::Event(_) => s,
    }
}

/// The actions one merged-stream item produces.
pub open spec fn step_actions(s: RouterState, u: &BotUpdate) -> Seq<ActionModel> {
    match u {
        BotUpdate::Update(pu) => fetch_actions(s, pu) + match pu {
            PlatformUpdate::Message { chat, from, body } => message_actions(s, *chat, *from, body),
            PlatformUpdate::EditedMessage { .. } => Seq::empty(),
            PlatformUpdate::Other => Seq::empty(),
        },
        BotUpdate::Event(e) => broadcast_actions(s, e),
    }
}

/// A stream item the router accepts: a domain event always carries its
/// forkee (the collector only forwards fork events).
pub open spec fn update_ok(u: &BotUpdate) -> bool {
    match u {
        BotUpdate::Update(_) => true,
        BotUpdate::Event(e) => e.payload.forkee is Some,
    }
}

/// The router: the registry plus the bot's own identity.
pub struct SessionRouter {
    registry: ChatRegistry,
    me: UserIdentity,
    bot_username: String,
}

impl View for SessionRouter {
    type V = RouterState;

    closed spec fn view(&self) -> RouterState {
        RouterState { registry: self.registry@, me: self.me, bot: self.bot_username@ }
    }
}

impl SessionRouter {
    /// The registry keeps each chat at most once in each store.
    pub closed spec fn wf(&self) -> bool {
        self.registry.wf()
    }

    /// Well-formedness keeps the subscription list free of duplicates.
    pub proof fn lemma_wf_active_no_dup(&self)
        requires
            self.wf(),
        ensures
            self@.registry.active.no_duplicates(),
    {
        self.registry.lemma_wf_active_no_dup();
    }

    /// A fresh router: empty registry, knowing only who the bot is.
    pub fn new(me: UserIdentity, bot_username: String) -> (r: SessionRouter)
        ensures
            r.wf(),
            r@.registry == RegistryModel::empty(),
            r@.me == me,
            r@.bot == bot_username@,
    {
        SessionRouter { registry: ChatRegistry::new(), me, bot_username }
    }

    /// Whether the chat is subscribed to notifications.
    pub fn is_active(&self, chat: &ChatIdentity) -> (r: bool)
        ensures
            r == self@.registry.is_active(*chat),
    {
        self.registry.is_active(chat)
    }

    /// Whether `user` may issue administrator commands in `chat`.
    pub fn is_authorized(&self, chat: &ChatIdentity, user: &UserIdentity) -> (r: bool)
        requires
            self.wf(),
        ensures
            r == self@.registry.is_authorized(*chat, *user),
    {
        self.registry.is_authorized(chat, user)
    }

    /// Apply the result of a completed administrator fetch. Runs out of
    /// band relative to the stream loop; only this call mutates the admin
    /// cache.
    pub fn admins_resolved(&mut self, chat: ChatIdentity, admins: Vec<UserIdentity>)
        requires
            old(self).wf(),
        ensures
            final(self).wf(),
            final(self)@ == (RouterState {
                registry: old(self)@.registry.resolve(chat, admins@.to_set()),
                ..old(self)@
            }),
    {
        self.registry.admins_resolved(chat, admins);
        proof {
            assert(self@ =~= RouterState {
                registry: old(self)@.registry.resolve(chat, admins@.to_set()),
                ..old(self)@
            });
        }
    }

    /// Process one item of the merged stream: mutate the registry as the
    /// dispatch rules say and return the outbound actions, in order.
    pub fn on_event(&mut self, update: BotUpdate) -> (r: Vec<Action>)
        requires
            old(self).wf(),
            update_ok(&update),
        ensures
            final(self).wf(),
            final(self)@ == step_state(old(self)@, &update),
            actions_model(r@) == step_actions(old(self)@, &update),
    {
        let ghost s0 = self@;
        match update {
            BotUpdate::Update(pu) => {
                let mut actions: Vec<Action> = Vec::new();
                let update_chat: Option<ChatIdentity> = match &pu {
                    PlatformUpdate::Message { chat, .. } => Some(*chat),
                    PlatformUpdate::EditedMessage { chat, .. } => Some(*chat),
                    PlatformUpdate::Other => None,
                };
                match update_chat {
                    Some(c) => {
                        if self.registry.needs_admin_fetch(&c) {
                            actions.push(Action::FetchAdmins { chat: c });
                        }
                    },
                    None => {},
                }
                proof {
                    assert(actions_model(actions@) =~= fetch_actions(s0, &pu));
                }
                let ghost pre = actions_model(actions@);
                match pu {
                    PlatformUpdate::Message { chat, from, body } => {
                        match body {
                            MessageBody::Text { content } => {
                                let cmd = parse(
                                    content.as_str(),
                                    &chat,
                                    self.bot_username.as_str(),
                                );
                                match cmd {
                                    Command::Start => {
                                        if !self.registry.is_authorized(&chat, &from) {
                                            actions.push(
                                                Action::SendText {
                                                    chat,
                                                    text: text::unauthorized(),
                                                    markdown: false,
                                                },
                                            );
                                        } else if self.registry.is_active(&chat) {
                                            actions.push(
                                                Action::SendText {
                                                    chat,
                                                    text: text::already_running(),
                                                    markdown: false,
                                                },
                                            );
                                        } else {
                                            self.registry.set_active(chat, true);
                                            actions.push(
                                                Action::SendText {
                                                    chat,
                                                    text: text::starting(),
                                                    markdown: false,
                                                },
                                            );
                                        }
                                    },
                                    Command::Stop => {
                                        if !self.registry.is_authorized(&chat, &from) {
                                            actions.push(
                                                Action::SendText {
                                                    chat,
                                                    text: text::unauthorized(),
                                                    markdown: false,
                                                },
                                            );
                                        } else if self.registry.is_active(&chat) {
                                            self.registry.set_active(chat, false);
                                            actions.push(
                                                Action::SendText {
                                                    chat,
                                                    text: text::stopping(),
                                                    markdown: false,
                                                },
                                            );
                                        } else {
                                            actions.push(
                                                Action::SendText {
                                                    chat,
                                                    text: text::not_running(),
                                                    markdown: false,
                                                },
                                            );
                                        }
                                    },
                                    Command::Unknown(name) => {
                                        actions.push(
                                            Action::SendText {
                                                chat,
                                                text: text::invalid_command(name.as_str()),
                                                markdown: false,
                                            },
                                        );
                                    },
                                    Command::Plain => {
                                        if self.registry.is_active(&chat) {
                                            if text::contains_gif_trigger(content.as_str()) {
                                                let mut one: Vec<ChatIdentity> = Vec::new();
                                                one.push(chat);
                                                proof {
                                                    assert(one@ =~= seq![chat]);
                                                }
                                                actions.push(Action::SendGif { chats: one });
                                            }
                                        }
                                    },
                                }
                                proof {
                                    assert(actions_model(actions@) =~= pre + text_actions(
                                        s0,
                                        chat,
                                        from,
                                        content@,
                                    ));
                                    assert(self@ =~= text_step(s0, chat, from, content@));
                                }
                            },
                            MessageBody::LeftChatMember { left } => {
                                if left == self.me {
                                    self.registry.forget(chat);
                                }
                                proof {
                                    assert(actions_model(actions@) =~= pre);
                                    assert(self@ =~= message_step(
                                        s0,
                                        chat,
                                        from,
                                        &MessageBody::LeftChatMember { left },
                                    ));
                                }
                            },
                            MessageBody::Other => {
                                proof {
                                    assert(actions_model(actions@) =~= pre + Seq::<
                                        ActionModel,
                                    >::empty());
                                }
                            },
                        }
                    },
                    PlatformUpdate::EditedMessage { .. } => {
                        proof {
                            assert(actions_model(actions@) =~= pre + Seq::<ActionModel>::empty());
                        }
                    },
                    PlatformUpdate::Other => {
                        proof {
                            assert(actions_model(actions@) =~= pre + Seq::<ActionModel>::empty());
                        }
                    },
                }
                actions
            },
            BotUpdate::Event(e) => {
                let msg = text::format_event(&e);
                let active = self.registry.active_chats();
                let mut actions: Vec<Action> = Vec::new();
                let mut i: usize = 0;
                while i < active.len()
                    invariant
                        i <= active@.len(),
                        active@ == s0.registry.active,
                        msg@ == text::event_text_spec(&e),
                        actions_model(actions@) == s0.registry.active.take(i as int).map_values(
                            |c: ChatIdentity| ActionModel::SendText {
                                chat: c,
                                text: text::event_text_spec(&e),
                                markdown: true,
                            },
                        ),
                    decreases active@.len() - i,
                {
                    let ghost prev = actions_model(actions@);
                    actions.push(
                        Action::SendText { chat: active[i], text: msg.clone(), markdown: true },
                    );
                    proof {
                        let f = |c: ChatIdentity| ActionModel::SendText {
                            chat: c,
                            text: text::event_text_spec(&e),
                            markdown: true,
                        };
                        assert(actions_model(actions@) =~= prev.push(f(active@[i as int])));
                        assert(s0.registry.active.take(i + 1) =~= s0.registry.active.take(
                            i as int,
                        ).push(active@[i as int]));
                        assert(s0.registry.active.take(i + 1).map_values(f)
                            =~= s0.registry.active.take(i as int).map_values(f).push(
                            f(active@[i as int]),
                        ));
                    }
                    i = i + 1;
                }
                actions.push(Action::SendGif { chats: active });
                proof {
                    assert(s0.registry.active.take(s0.registry.active.len() as int)
                        =~= s0.registry.active);
                    assert(actions_model(actions@) =~= broadcast_actions(s0, &e));
                }
                actions
            },
        }
    }
}

/// A chat of the active set that is not private always has its admin
/// record cached: only an authorized command subscribes a chat, and in a
/// group authorization needs the record.
pub open spec fn active_groups_resolved(s: RouterState) -> bool {
    forall|c: ChatIdentity|
        s.registry.active.contains(c) && !c.is_private_spec()
            ==> s.registry.admins.contains_key(c)
}

proof fn lemma_remove_value_subset(v: Seq<ChatIdentity>, x: ChatIdentity, c: ChatIdentity)
    requires
        v.remove_value(x).contains(c),
    ensures
        v.contains(c),
{
    v.index_of_first_ensures(x);
    match v.index_of_first(x) {
        Option::Some(i) => {
            v.remove_ensures(i);
            let k = choose|k: int| 0 <= k < v.remove(i).len() && v.remove(i)[k] == c;
            if k < i {
                assert(v[k] == c);
            } else {
                assert(v[k + 1] == c);
            }
        },
        Option::None => {},
    }
}

proof fn lemma_remove_value_no_dup_gone(v: Seq<ChatIdentity>, x: ChatIdentity)
    requires
        v.no_duplicates(),
    ensures
        !v.remove_value(x).contains(x),
{
    v.index_of_first_ensures(x);
    match v.index_of_first(x) {
        Option::Some(i) => {
            v.remove_ensures(i);
            if v.remove(i).contains(x) {
                let k = choose|k: int| 0 <= k < v.remove(i).len() && v.remove(i)[k] == x;
                if k < i {
                    assert(v[k] == x);
                } else {
                    assert(v[k + 1] == x);
                }
            }
        },
        Option::None => {},
    }
}

/// Every stream item keeps the coupling of the two stores: a subscribed
/// chat that is not private keeps its cached admin record.
pub proof fn lemma_step_preserves_active_groups_resolved(s: RouterState, u: &BotUpdate)
    requires
        active_groups_resolved(s),
        s.registry.active.no_duplicates(),
    ensures
        active_groups_resolved(step_state(s, u)),
{
    let s2 = step_state(s, u);
    match u {
        BotUpdate::Update(pu) => match pu {
            PlatformUpdate::Message { chat, from, body } => match body {
                MessageBody::Text { content } => {
                    assert forall|c: ChatIdentity|
                        s2.registry.active.contains(c) && !c.is_private_spec()
                            implies s2.registry.admins.contains_key(c) by {
                        match parse_spec(content@, chat.is_private_spec(), s.bot) {
                            CommandModel::Start => {
                                if s.registry.is_authorized(*chat, *from) && !s.registry.is_active(
                                    *chat,
                                ) {
                                    if c != *chat {
                                        assert(s.registry.active.contains(c)) by {
                                            let k = choose|k: int|
                                                0 <= k < s2.registry.active.len()
                                                    && s2.registry.active[k] == c;
                                            assert(s.registry.active[k] == c);
                                        }
                                    }
                                }
                            },
                            CommandModel::Stop => {
                                if s.registry.is_authorized(*chat, *from) && s.registry.is_active(
                                    *chat,
                                ) {
                                    lemma_remove_value_subset(s.registry.active, *chat, c);
                                }
                            },
                            CommandModel::Unknown(_) => {},
                            CommandModel::Plain => {},
                        }
                    }
                },
                MessageBody::LeftChatMember { left } => {
                    if *left == s.me {
                        assert forall|c: ChatIdentity|
                            s2.registry.active.contains(c) && !c.is_private_spec()
                                implies s2.registry.admins.contains_key(c) by {
                            lemma_remove_value_subset(s.registry.active, *chat, c);
                            lemma_remove_value_no_dup_gone(s.registry.active, *chat);
                        }
                    }
                },
                MessageBody::Other => {},
            },
            PlatformUpdate::EditedMessage { .. } => {},
            PlatformUpdate::Other => {},
        },
        BotUpdate::Event(_) => {},
    }
}

/// An authorized `/start` issued twice leaves exactly one membership in
/// the active set; the second issue answers that the bot is already
/// running and changes nothing.
pub proof fn lemma_start_idempotent(
    s: RouterState,
    chat: ChatIdentity,
    from: UserIdentity,
    content: Seq<char>,
)
    requires
        parse_spec(content, chat.is_private_spec(), s.bot) == CommandModel::Start,
        s.registry.is_authorized(chat, from),
        s.registry.active.no_duplicates(),
    ensures
        text_step(text_step(s, chat, from, content), chat, from, content) == text_step(
            s,
            chat,
            from,
            content,
        ),
        text_step(s, chat, from, content).registry.active.to_multiset().count(chat) == 1,
        text_actions(text_step(s, chat, from, content), chat, from, content) == seq![
            notice(chat, text::already_running_text()),
        ],
{
    broadcast use vstd::seq_lib::to_multiset_contains;

    let s1 = text_step(s, chat, from, content);
    let a1 = s1.registry.active;
    assert(s1.registry.admins == s.registry.admins);
    assert(s1.registry.is_active(chat)) by {
        if !s.registry.is_active(chat) {
            assert(a1[a1.len() - 1] == chat);
        }
    }
    assert(a1.no_duplicates()) by {
        if !s.registry.is_active(chat) {
            assert forall|p: int, q: int| 0 <= p < q < a1.len() implies a1[p] != a1[q] by {
                if q == a1.len() - 1 {
                    if a1[p] == chat {
                        assert(s.registry.active.contains(chat));
                    }
                }
            }
        }
    }
    a1.lemma_multiset_has_no_duplicates();
    assert(a1.to_multiset().count(chat) == 1);
    assert(text_step(s1, chat, from, content) == s1);
}

/// `/stop` on a chat that is not subscribed changes no state; when the
/// sender is authorized it answers that the bot is not running, and
/// otherwise it answers the authorization rejection.
pub proof fn lemma_stop_inactive_is_noop(
    s: RouterState,
    chat: ChatIdentity,
    from: UserIdentity,
    content: Seq<char>,
)
    requires
        parse_spec(content, chat.is_private_spec(), s.bot) == CommandModel::Stop,
        !s.registry.is_active(chat),
    ensures
        text_step(s, chat, from, content) == s,
        s.registry.is_authorized(chat, from) ==> text_actions(s, chat, from, content) == seq![
            notice(chat, text::not_running_text()),
        ],
        !s.registry.is_authorized(chat, from) ==> text_actions(s, chat, from, content) == seq![
            notice(chat, text::unauthorized_text()),
        ],
{
}

} // verus!
