//! Verified core of a local terminal multiplexer.
//!
//! The library couples an interactive terminal to a child process running
//! under a pseudo-terminal while mirroring the byte stream to a supervisor
//! over a framed local socket.  It provides the session registry, the
//! per-session output queue with its backpressure policy, the wire-protocol
//! codec, the activity detector, and the decision logic of the forwarder.
//! Process spawning, raw terminal handling and socket I/O are reached only
//! through narrow trusted wrappers or live in the surrounding binary.

pub mod activity;
pub mod codec;
pub mod commands;
pub mod errors;
pub mod forwarder;
pub mod ids;
pub mod paths;
pub mod pty;
pub mod queue;
pub mod registry;
pub mod status;
pub mod store;
pub mod text;
