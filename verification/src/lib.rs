//! Core engine of a local-network file-sharing tool.
//!
//! The crate holds the verified logic of the sharing server: the file
//! registry, the per-client session state machine, the download progress
//! stream accounting, the per-IP permit table, the archive job bookkeeping,
//! and the route decisions of the HTTP layer. All I/O (the HTTP server
//! itself, the filesystem, timers) lives outside; the functions here take
//! plain values — timestamps in milliseconds, paths as strings, addresses
//! as octets — and return plain values.

pub mod archive;
pub mod control;
pub mod events;
pub mod net;
pub mod permits;
pub mod registry;
pub mod render;
pub mod router;
pub mod sessions;
pub mod stream;

pub use net::IpAddress;
