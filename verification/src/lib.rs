//! Moderation core for a chat-platform automation bot.
//!
//! The crate keeps per-community configuration, validates user-authored
//! role-assignment documents, records moderation actions in an auditable
//! ledger with community-scoped sequential case numbers, and decides when
//! an inbound message triggers automated mention-spam enforcement.
//!
//! All network and platform interaction (delivering message events,
//! resolving members, mutating roles, parsing or printing documents) is
//! left to the surrounding program; the library works on plain values and
//! states what it does in contracts.

pub mod config;
pub mod engine;
pub mod json;
pub mod ledger;
pub mod mention;
pub mod validate;
