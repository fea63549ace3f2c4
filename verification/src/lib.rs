//! Chat session and command router for a fork-notification bot.
//!
//! The library holds the verified core: the per-chat authorization and
//! subscription registry, the command parser, the session router that turns
//! each inbound update or domain event into a state change plus a list of
//! outbound actions, and the gif-selection step. The surrounding process
//! performs the network I/O and feeds plain values in and out.

pub mod chat;
pub mod command;
pub mod error;
pub mod feed;
pub mod events;
pub mod giphy;
pub mod text;
pub mod registry;
pub mod router;
