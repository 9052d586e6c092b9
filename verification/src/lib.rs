//! A verified model of a journal-entry record store.
//!
//! The library models a keyed store of journal entries: each record is
//! owned by the identity that created it, addressed by the pair of that
//! identity and the entry's title, and carries a bounded-length message.
//! The three operations (create, update, delete) are verified against a
//! mathematical map from (owner, title) keys to stored messages.

pub mod journal;
pub mod laws;
pub mod state;
