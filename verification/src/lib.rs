//! A verified core for a peer-to-peer song catalog.
//!
//! Nodes on a shared broadcast channel each keep a local catalog of songs,
//! persisted as a JSON document, and answer requests for the publicly
//! visible part of that catalog.  This crate holds everything that can be
//! stated and proved: the catalog store operations, the JSON encoding and
//! parsing of the persisted document and of the three wire message shapes,
//! the classification of inbound payloads, operator command parsing, and
//! the event coordinator's decision rules.  The binary around it only does
//! I/O: it reads and writes the catalog file, runs the broadcast transport,
//! and prompts the operator.

pub mod codec;
pub mod commands;
pub mod coordinator;
pub mod laws;
pub mod parse;
pub mod peers;
pub mod protocol;
pub mod render;
pub mod song;
pub mod store;
pub mod text;
pub mod wire;
