//! Core of a line-oriented group-messaging server.
//!
//! Clients join under a unique username, send directed or broadcast
//! messages, query the set of joined users and their status, and leave.
//! This crate holds the verified protocol core: the frame reader that
//! reassembles newline-delimited frames from raw socket reads, the shared
//! user directory and connection registry, the command dispatcher, and the
//! message router.  The surrounding TCP plumbing performs the actual socket
//! reads and writes and feeds plain values in and out of this library.

pub mod board;
pub mod chars;
pub mod dispatch;
pub mod frame;
pub mod json;
pub mod laws;
pub mod protocol;
pub mod router;
pub mod state;
pub mod username;

pub use chars::str_to_chars;
pub use frame::FrameReader;
pub use username::is_valid_username;
pub use protocol::Status;
pub use protocol::Response;
pub use state::Directory;
pub use state::Registry;
pub use state::ServerState;
pub use state::UserEntry;
pub use router::Delivery;
pub use dispatch::DispatchOutcome;
pub use dispatch::dispatch;
