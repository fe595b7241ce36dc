//! Core logic of a chat bot that hands video links to an external download
//! engine: an allow-list registry with download counters, a per-user pending
//! URL slot, the two-phase request state machine, admin commands, and the
//! snapshot and button-payload codecs.
pub mod admin;
pub mod coordinator;
pub mod db;
pub mod hex;
pub mod media;
pub mod snapshot;
pub mod strings;
pub mod token;
