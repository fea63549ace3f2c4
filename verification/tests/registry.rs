use gabeln_jetzt::chat::{ChatIdentity, ChatKind, UserIdentity};
use gabeln_jetzt::registry::{AdminResolution, ChatRegistry};

fn private_chat() -> ChatIdentity {
    ChatIdentity { kind: ChatKind::Private, id: 5 }
}

fn group_chat() -> ChatIdentity {
    ChatIdentity { kind: ChatKind::Group, id: -7 }
}

fn supergroup_chat() -> ChatIdentity {
    ChatIdentity { kind: ChatKind::Supergroup, id: -8 }
}

#[test]
fn private_chats_authorize_everyone() {
    let reg = ChatRegistry::new();
    let c = private_chat();
    assert!(reg.is_authorized(&c, &UserIdentity { id: 1 }));
    assert!(reg.is_authorized(&c, &UserIdentity { id: -999 }));
}

#[test]
fn unresolved_group_fails_closed() {
    let reg = ChatRegistry::new();
    assert!(!reg.is_authorized(&group_chat(), &UserIdentity { id: 1 }));
    assert!(!reg.is_authorized(&supergroup_chat(), &UserIdentity { id: 1 }));
}

#[test]
fn resolution_authorizes_exactly_the_admins() {
    let mut reg = ChatRegistry::new();
    let g = group_chat();
    reg.admins_resolved(g, vec![UserIdentity { id: 1 }, UserIdentity { id: 2 }]);
    assert!(reg.is_authorized(&g, &UserIdentity { id: 1 }));
    assert!(reg.is_authorized(&g, &UserIdentity { id: 2 }));
    assert!(!reg.is_authorized(&g, &UserIdentity { id: 3 }));
    // Another group stays unresolved.
    assert!(!reg.is_authorized(&supergroup_chat(), &UserIdentity { id: 1 }));
}

#[test]
fn needs_admin_fetch_only_for_unresolved_group_like_chats() {
    let mut reg = ChatRegistry::new();
    assert!(!reg.needs_admin_fetch(&private_chat()));
    assert!(reg.needs_admin_fetch(&group_chat()));
    assert!(reg.needs_admin_fetch(&supergroup_chat()));
    reg.admins_resolved(group_chat(), vec![UserIdentity { id: 1 }]);
    assert!(!reg.needs_admin_fetch(&group_chat()));
    assert!(reg.needs_admin_fetch(&supergroup_chat()));
}

#[test]
fn ensure_admins_reports_the_three_states() {
    let mut reg = ChatRegistry::new();
    assert_eq!(reg.ensure_admins(&private_chat()), AdminResolution::Private);
    assert_eq!(reg.ensure_admins(&group_chat()), AdminResolution::Pending);
    reg.admins_resolved(group_chat(), vec![UserIdentity { id: 1 }]);
    assert_eq!(
        reg.ensure_admins(&group_chat()),
        AdminResolution::Cached(vec![UserIdentity { id: 1 }])
    );
}

#[test]
fn set_active_is_idempotent_both_ways() {
    let mut reg = ChatRegistry::new();
    let c = private_chat();
    assert!(!reg.is_active(&c));
    reg.set_active(c, true);
    assert!(reg.is_active(&c));
    reg.set_active(c, true);
    assert!(reg.is_active(&c));
    assert_eq!(reg.active_chats(), vec![c]);
    reg.set_active(c, false);
    assert!(!reg.is_active(&c));
    reg.set_active(c, false);
    assert!(!reg.is_active(&c));
    assert_eq!(reg.active_chats(), vec![]);
}

#[test]
fn active_chats_keep_subscription_order() {
    let mut reg = ChatRegistry::new();
    let a = ChatIdentity { kind: ChatKind::Private, id: 1 };
    let b = ChatIdentity { kind: ChatKind::Private, id: 2 };
    let c = ChatIdentity { kind: ChatKind::Private, id: 3 };
    reg.set_active(b, true);
    reg.set_active(a, true);
    reg.set_active(c, true);
    assert_eq!(reg.active_chats(), vec![b, a, c]);
    reg.set_active(a, false);
    assert_eq!(reg.active_chats(), vec![b, c]);
}

#[test]
fn forget_clears_cache_and_subscription() {
    let mut reg = ChatRegistry::new();
    let g = group_chat();
    reg.admins_resolved(g, vec![UserIdentity { id: 1 }]);
    reg.set_active(g, true);
    assert!(reg.is_active(&g));
    assert!(reg.is_authorized(&g, &UserIdentity { id: 1 }));
    reg.forget(g);
    assert!(!reg.is_active(&g));
    assert!(!reg.is_authorized(&g, &UserIdentity { id: 1 }));
    assert!(reg.needs_admin_fetch(&g));
}

#[test]
fn resolution_replaces_an_earlier_cache() {
    let mut reg = ChatRegistry::new();
    let g = group_chat();
    reg.admins_resolved(g, vec![UserIdentity { id: 1 }]);
    reg.admins_resolved(g, vec![UserIdentity { id: 2 }]);
    assert!(!reg.is_authorized(&g, &UserIdentity { id: 1 }));
    assert!(reg.is_authorized(&g, &UserIdentity { id: 2 }));
}
