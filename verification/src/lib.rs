//! Peer membership core: a registry of known peers, the rules by which
//! discovery announcements, dial completions and liveness probes change it,
//! and the single-writer event loop step that applies them.

pub mod dialer;
pub mod discovery;
pub mod event_loop;
pub mod guarantees;
pub mod peer;
pub mod prober;
pub mod registry;
