//! Optimistic create/sync reconciliation engine for a local-first chat client.
//!
//! A client creates entities (chats, tags, access modes, configurations) under
//! provisional, position-based identifiers before the server has assigned
//! authoritative ones.  When the server's answer differs, the engine backfills
//! the gap with authoritative entities and remaps every outstanding UI cursor
//! so that no selection ever dangles.  A companion streaming accumulator folds
//! an at-least-once, duplicate-prone stream of token events into the ledger's
//! chat transcripts and garbage-collects its tracking state after an
//! inactivity window.

pub mod ids;
pub mod items;
pub mod ledger;
pub mod cursors;
pub mod apply;
pub mod reconcile;
pub mod stream;
pub mod state;
pub mod ui_state;
