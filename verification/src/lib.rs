//! Decision logic of a Wake-on-LAN repeater.
//!
//! The crate holds everything the repeater decides: whether a buffer is a
//! magic packet, whether a target is still cooling down, which networks a
//! datagram is relayed to and which interfaces a frame leaves on. Sockets,
//! threads and timers live with the caller, which feeds plain values in and
//! carries the returned plans out.

pub mod common;
pub mod config;
pub mod cooldown;
pub mod error;
pub mod iface;
pub mod layer2;
pub mod layer4;
pub mod net;
pub mod netlist;
pub mod stage;
