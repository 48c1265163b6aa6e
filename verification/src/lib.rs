//! Host-side logic of a game-state radar stack: the shared-memory record ring
//! between the memory-reader kernel module and its user-space client, byte
//! pattern scanning, schema-driven offset discovery, snapshot classification,
//! and the decision logic of the radar, trigger and mouse-relay programs.
use vstd::prelude::*;

pub mod uapi;
pub mod wire;
pub mod ring_format;
pub mod ring_reader;
pub mod ring_writer;
pub mod ring_laws;
pub mod text;
pub mod client;
pub mod pattern;
pub mod elf;
pub mod runtime;
pub mod interfaces;
pub mod names;
pub mod schema;
pub mod offsets;
pub mod players;
pub mod runtime_types;
pub mod snapshot;
pub mod mouse_config;
pub mod launcher;
pub mod mouse_relay;
pub mod trigger;
pub mod radar;
pub mod class_instance;
pub mod snapshot_reader;
pub mod process;
pub mod module_scan;

verus! {

} // verus!
