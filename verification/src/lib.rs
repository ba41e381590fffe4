//! An in-memory, real-time poll-voting core.
//!
//! The library owns the poll registry (polls, options, tallies, voter
//! records), the vote state-transition logic with its one-vote-per-voter
//! rule, the monotonic identifier allocator, and the per-connection
//! decision logic of a live-update listener session.  Transport, locking
//! and message encoding live outside the library and call into it with
//! plain values.

pub mod poll;
pub mod registry;
pub mod session;
