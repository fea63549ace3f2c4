use gabeln_jetzt::chat::{ChatIdentity, ChatKind, UserIdentity};
use gabeln_jetzt::events::{Actor, Event, Forkee, Payload, Repository};
use gabeln_jetzt::router::{Action, BotUpdate, MessageBody, PlatformUpdate, SessionRouter};

const ME: UserIdentity = UserIdentity { id: 1000 };

fn new_router() -> SessionRouter {
    SessionRouter::new(ME, "MyBot".to_string())
}

fn private_chat() -> ChatIdentity {
    ChatIdentity { kind: ChatKind::Private, id: 5 }
}

fn group_chat() -> ChatIdentity {
    ChatIdentity { kind: ChatKind::Group, id: -7 }
}

fn text_message(chat: ChatIdentity, from: UserIdentity, text: &str) -> BotUpdate {
    BotUpdate::Update(PlatformUpdate::Message {
        chat,
        from,
        body: MessageBody::Text { content: text.to_string() },
    })
}

fn fork_event(actor: &str, repo: &str, full_name: &str, url: &str) -> Event {
    Event {
        id: "123".to_string(),
        event_type: "ForkEvent".to_string(),
        actor: Actor { display_login: actor.to_string(), avatar_url: "a.png".to_string() },
        repo: Repository { name: repo.to_string() },
        payload: Payload {
            forkee: Some(Forkee {
                full_name: full_name.to_string(),
                html_url: url.to_string(),
            }),
        },
        created_at: 1_600_000_000,
    }
}

#[test]
fn private_start_then_event_broadcast() {
    // Registry empty; private chat P sends /start.
    let mut router = new_router();
    let p = private_chat();
    let u = UserIdentity { id: 2 };
    let actions = router.on_event(text_message(p, u, "/start"));
    assert_eq!(
        actions,
        vec![Action::SendText {
            chat: p,
            text: "Starting bot in this chat!".to_string(),
            markdown: false,
        }]
    );
    assert!(router.is_active(&p));

    // A fork event arrives: exactly one formatted message to P, plus one
    // gif-send round aimed at P.
    let ev = fork_event("alice", "x", "alice/x", "https://github.com/alice/x");
    let actions = router.on_event(BotUpdate::Event(ev));
    assert_eq!(actions.len(), 2);
    match &actions[0] {
        Action::SendText { chat, text, markdown } => {
            assert_eq!(*chat, p);
            assert!(*markdown);
            assert!(text.contains("alice"));
            assert!(text.contains("x"));
            assert_eq!(text, "**alice** forked __x__ at [alice/x](https://github.com/alice/x)!");
        },
        other => panic!("expected a text send, got {:?}", other),
    }
    assert_eq!(actions[1], Action::SendGif { chats: vec![p] });
}

#[test]
fn group_stop_by_non_admin_is_rejected() {
    // Group chat G; the admin fetch returns {u1}.
    let mut router = new_router();
    let g = group_chat();
    let u1 = UserIdentity { id: 1 };
    let u2 = UserIdentity { id: 2 };

    // The first update from G asks for the admin list.
    let actions = router.on_event(text_message(g, u2, "hello"));
    assert_eq!(actions, vec![Action::FetchAdmins { chat: g }]);
    router.admins_resolved(g, vec![u1]);

    // /stop by u2, not an admin: unauthorized notice, no state change.
    let actions = router.on_event(text_message(g, u2, "/stop@MyBot"));
    assert_eq!(
        actions,
        vec![Action::SendText {
            chat: g,
            text: "You are not authorized to do this! Only administrators are allowed to use this command!"
                .to_string(),
            markdown: false,
        }]
    );
    assert!(!router.is_active(&g));

    // /stop by u1 while G is not active: a "not running" notice.
    let actions = router.on_event(text_message(g, u1, "/stop@MyBot"));
    assert_eq!(
        actions,
        vec![Action::SendText {
            chat: g,
            text: "Bot is not running in this chat!".to_string(),
            markdown: false,
        }]
    );
    assert!(!router.is_active(&g));
}

#[test]
fn start_twice_keeps_one_membership() {
    let mut router = new_router();
    let p = private_chat();
    let u = UserIdentity { id: 2 };
    router.on_event(text_message(p, u, "/start"));
    let actions = router.on_event(text_message(p, u, "/start"));
    assert_eq!(
        actions,
        vec![Action::SendText {
            chat: p,
            text: "Bot already running in this chat!".to_string(),
            markdown: false,
        }]
    );
    assert!(router.is_active(&p));

    // One broadcast reaches P exactly once.
    let ev = fork_event("bob", "y", "bob/y", "https://github.com/bob/y");
    let actions = router.on_event(BotUpdate::Event(ev));
    let text_sends = actions
        .iter()
        .filter(|a| matches!(a, Action::SendText { .. }))
        .count();
    assert_eq!(text_sends, 1);
}

#[test]
fn stop_then_start_round_trip() {
    let mut router = new_router();
    let p = private_chat();
    let u = UserIdentity { id: 2 };
    router.on_event(text_message(p, u, "/start"));
    let actions = router.on_event(text_message(p, u, "/stop"));
    assert_eq!(
        actions,
        vec![Action::SendText {
            chat: p,
            text: "Stopping bot in this chat!".to_string(),
            markdown: false,
        }]
    );
    assert!(!router.is_active(&p));
}

#[test]
fn bot_removal_forgets_the_chat() {
    // Removal scenario: an active group loses the bot account.
    let mut router = new_router();
    let g = group_chat();
    let u1 = UserIdentity { id: 1 };
    router.on_event(text_message(g, u1, "hi"));
    router.admins_resolved(g, vec![u1]);
    router.on_event(text_message(g, u1, "/start@MyBot"));
    assert!(router.is_active(&g));
    assert!(router.is_authorized(&g, &u1));

    let removal = BotUpdate::Update(PlatformUpdate::Message {
        chat: g,
        from: u1,
        body: MessageBody::LeftChatMember { left: ME },
    });
    let actions = router.on_event(removal);
    assert_eq!(actions, vec![]);
    assert!(!router.is_active(&g));
    // The admin cache is cleared too: authorization fails closed again.
    assert!(!router.is_authorized(&g, &u1));
}

#[test]
fn removal_of_someone_else_changes_nothing() {
    let mut router = new_router();
    let p = private_chat();
    let u = UserIdentity { id: 2 };
    router.on_event(text_message(p, u, "/start"));
    let removal = BotUpdate::Update(PlatformUpdate::Message {
        chat: p,
        from: u,
        body: MessageBody::LeftChatMember { left: UserIdentity { id: 77 } },
    });
    let actions = router.on_event(removal);
    assert_eq!(actions, vec![]);
    assert!(router.is_active(&p));
}

#[test]
fn unknown_command_is_reported_and_changes_nothing() {
    let mut router = new_router();
    let p = private_chat();
    let u = UserIdentity { id: 2 };
    let actions = router.on_event(text_message(p, u, "/frobnicate"));
    assert_eq!(
        actions,
        vec![Action::SendText {
            chat: p,
            text: "Invalid command `frobnicate`!".to_string(),
            markdown: false,
        }]
    );
    assert!(!router.is_active(&p));
}

#[test]
fn trigger_text_in_active_chat_requests_a_gif() {
    let mut router = new_router();
    let p = private_chat();
    let u = UserIdentity { id: 2 };
    router.on_event(text_message(p, u, "/start"));
    let actions = router.on_event(text_message(p, u, "have you seen gabeln.jetzt today?"));
    assert_eq!(actions, vec![Action::SendGif { chats: vec![p] }]);
}

#[test]
fn trigger_text_in_inactive_chat_does_nothing() {
    let mut router = new_router();
    let p = private_chat();
    let u = UserIdentity { id: 2 };
    let actions = router.on_event(text_message(p, u, "gabeln.jetzt"));
    assert_eq!(actions, vec![]);
}

#[test]
fn group_start_before_resolution_fails_closed() {
    let mut router = new_router();
    let g = group_chat();
    let u1 = UserIdentity { id: 1 };
    // The very first update is already a command: the fetch is issued and
    // the command is rejected rather than blocking on the fetch.
    let actions = router.on_event(text_message(g, u1, "/start@MyBot"));
    assert_eq!(actions.len(), 2);
    assert_eq!(actions[0], Action::FetchAdmins { chat: g });
    assert_eq!(
        actions[1],
        Action::SendText {
            chat: g,
            text: "You are not authorized to do this! Only administrators are allowed to use this command!"
                .to_string(),
            markdown: false,
        }
    );
    assert!(!router.is_active(&g));

    // After resolution the same command from the same admin succeeds.
    router.admins_resolved(g, vec![u1]);
    let actions = router.on_event(text_message(g, u1, "/start@MyBot"));
    assert_eq!(
        actions,
        vec![Action::SendText {
            chat: g,
            text: "Starting bot in this chat!".to_string(),
            markdown: false,
        }]
    );
    assert!(router.is_active(&g));
}

#[test]
fn broadcast_reaches_every_active_chat_with_one_shared_gif_round() {
    let mut router = new_router();
    let p1 = ChatIdentity { kind: ChatKind::Private, id: 1 };
    let p2 = ChatIdentity { kind: ChatKind::Private, id: 2 };
    let u = UserIdentity { id: 9 };
    router.on_event(text_message(p1, u, "/start"));
    router.on_event(text_message(p2, u, "/start"));
    let ev = fork_event("carol", "z", "carol/z", "https://github.com/carol/z");
    let actions = router.on_event(BotUpdate::Event(ev));
    // One text per active chat, in subscription order, then one shared gif
    // round naming both chats: a single lookup reused for all recipients.
    assert_eq!(actions.len(), 3);
    let expected = "**carol** forked __z__ at [carol/z](https://github.com/carol/z)!";
    assert_eq!(
        actions[0],
        Action::SendText { chat: p1, text: expected.to_string(), markdown: true }
    );
    assert_eq!(
        actions[1],
        Action::SendText { chat: p2, text: expected.to_string(), markdown: true }
    );
    assert_eq!(actions[2], Action::SendGif { chats: vec![p1, p2] });
}

#[test]
fn edited_messages_only_trigger_the_admin_fetch() {
    let mut router = new_router();
    let g = group_chat();
    let u = UserIdentity { id: 1 };
    let edited = BotUpdate::Update(PlatformUpdate::EditedMessage {
        chat: g,
        from: u,
        body: MessageBody::Text { content: "/start@MyBot".to_string() },
    });
    let actions = router.on_event(edited);
    assert_eq!(actions, vec![Action::FetchAdmins { chat: g }]);
    assert!(!router.is_active(&g));
}

#[test]
fn other_updates_are_no_ops() {
    let mut router = new_router();
    let actions = router.on_event(BotUpdate::Update(PlatformUpdate::Other));
    assert_eq!(actions, vec![]);
}
