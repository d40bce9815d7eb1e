//! Core of a majority-vote agreement testbed: peers receive a command from a
//! recognized leader, answer with a vote according to their configured
//! disposition, and decide by simple majority over the votes that arrive
//! within a bounded tally window.
//!
//! The peer-to-peer transport, the wall-clock time authority, and the
//! operator's administrative interface are external collaborators; they hand
//! the modules here plain values and take plain values back.

pub mod clock;
pub mod message;
pub mod peer;
pub mod policy;
pub mod session;
pub mod tally;
pub mod timey;
pub mod view;
