//! Verified core of a multi-session pseudo-terminal service, together with
//! the text helpers of the review tool that shares its workspace.
//!
//! The operating-system work (opening terminals, spawning children, reading
//! and writing bytes, waiting for exit) is done by the caller; this crate
//! decides, for each request and each event, what happens to the sessions.

pub mod session;
pub mod pump;
pub mod command;
pub mod text;
pub mod comments;
pub mod config;
pub mod offsets;
pub mod requests;
pub mod markers;

pub use command::CreatePtyRequest;
