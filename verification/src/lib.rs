//! Verified core of a local system bridge: the framing, authentication,
//! socket bookkeeping, path authorization and hashing rules of the I/O
//! daemon, together with the discovery-file and request rules of its
//! companion host process.
//!
//! The library decides; its caller does the I/O. Every entry point takes
//! plain values and returns plain values, with a contract that says what
//! comes back.

// The I/O daemon: the WebSocket session and its sockets.
pub mod envelope;
pub mod frames;
pub mod auth;
pub mod registry;
pub mod session;
pub mod reader;

// The I/O daemon: the HTTP surface.
pub mod http;
pub mod config;
pub mod paths;
pub mod files;
pub mod hashing;
pub mod stats;
pub mod lifecycle;

// The host process and the link handler.
pub mod discovery;
pub mod host;
pub mod path_safety;
pub mod rpc;
pub mod ipc;
pub mod envfile;
pub mod launcher;
pub mod browser;

// Shared helpers on text.
pub mod text;
