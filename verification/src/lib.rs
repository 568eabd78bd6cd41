//! Finds database sessions that have sat "idle in transaction" for too long,
//! and decides which of them to report and which to terminate.
//!
//! The crate holds the decisions only. Reading the session view and running
//! the termination command are left to the caller, who hands in plain values
//! and carries out what the decisions ask for:
//!
//! - `config` turns the options of an invocation into a `Policy`;
//! - `session` turns the rows of the one query into sessions;
//! - `time` measures how long a session has been in its state;
//! - `select` decides on each session in its turn, and on a whole pass;
//! - `laws` states what holds of every pass.

pub mod config;
pub mod laws;
pub mod select;
pub mod session;
pub mod time;

pub use crate::session::{find_iit, FindIitRow};
pub use crate::time::age;
