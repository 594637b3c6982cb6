//! Membership gatekeeping for a monitored chat group.
//!
//! The library verifies that a person joining the group is a legitimately
//! enrolled individual before granting continued access, and evicts anyone
//! who joined without completing verification.  It is organised around five
//! components: an enrollment directory with verification bindings
//! ([`directory`]), a pure verification matcher over normalized text
//! ([`text`], [`matcher`]), a per-candidate dialogue state machine
//! ([`dialogue`]), a membership gatekeeper reacting to join events
//! ([`gatekeeper`]), and an event router that classifies inbound events
//! ([`router`]).
//!
//! All transport and persistence (the chat platform, the backing database)
//! stay outside: the library works on plain values and decides; a thin shell
//! performs the calls.

pub mod dialogue;
pub mod directory;
pub mod gatekeeper;
pub mod matcher;
pub mod models;
pub mod router;
pub mod text;
