//! Focus-session tracking: session records, label filtering, statistics,
//! the history log's rules and the countdown's state machine.
pub mod labels;
pub mod session;
pub mod filter;
pub mod stats;
pub mod store;
pub mod engine;
