//! Identities of conversations and users on the chat platform.
//!
//! A chat is private (one user) or group-like (a group or supergroup with
//! administrators). Its identity is a stable key: the platform's numeric id
//! together with the kind. Users are identified by their numeric id alone.

use vstd::prelude::*;

verus! {

/// Whether a conversation is private or one of the two group forms.
#[derive(Debug, Clone, Copy, PartialEq, Eq, Hash, Structural)]
pub enum ChatKind {
    Private,
    Group,
    Supergroup,
}

/// The stable key of a conversation; the sole key of every per-chat map.
#[derive(Debug, Clone, Copy, PartialEq, Eq, Hash, Structural)]
pub struct ChatIdentity {
    pub kind: ChatKind,
    pub id: i64,
}

/// The stable key of a platform user.
#[derive(Debug, Clone, Copy, PartialEq, Eq, Hash, Structural)]
pub struct UserIdentity {
    pub id: i64,
}

impl ChatIdentity {
    /// A private conversation: its one member is implicitly authorized.
    pub open spec fn is_private_spec(&self) -> bool {
        self.kind == ChatKind::Private
    }

    /// A conversation with administrators, whose list must be fetched.
    pub open spec fn is_group_like_spec(&self) -> bool {
        self.kind == ChatKind::Group || self.kind == ChatKind::Supergroup
    }

    pub fn is_private(&self) -> (r: bool)
        ensures
            r == self.is_private_spec(),
    {
        matches!(self.kind, ChatKind::Private)
    }

    pub fn is_group_like(&self) -> (r: bool)
        ensures
            r == self.is_group_like_spec(),
    {
        matches!(self.kind, ChatKind::Group | ChatKind::Supergroup)
    }
}

} // verus!
