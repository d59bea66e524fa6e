//! A minimal mail-transfer protocol core: a per-connection session state
//! machine, a command interpreter, and the message-persistence boundary.
//!
//! The session distinguishes command mode from data-collection mode, the
//! interpreter maps one command line plus the transaction state to a response
//! line and a state update, and the store module derives the storage location
//! for an accepted message. All I/O (sockets, threads, the filesystem) lives
//! outside this crate; the library works on plain lines of text.

pub mod interpreter;
pub mod session;
pub mod store;
pub mod text;
