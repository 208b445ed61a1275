//! A mail filter that rejects messages whose sender address or sender domain
//! is blacklisted, speaking a line-oriented pipe protocol with the mail server.
//!
//! - `codec`: input lines to events, results to output lines
//! - `extract`: the sender address in the buffered header lines
//! - `blacklist`: exact addresses and domain patterns
//! - `session`: the per-session state of open transactions
//! - `filter`: the event loop's decisions, one line at a time
//! - `laws`: properties that hold across calls
pub mod text;
pub mod util;
pub mod words;
pub mod blacklist;
pub mod extract;
pub mod codec;
pub mod session;
pub mod filter;
pub mod laws;
pub mod args;
