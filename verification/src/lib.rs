//! A verified client for the Minecraft server-list-ping status protocol,
//! together with the pieces of a bounded-concurrency host scanner that can be
//! reasoned about: the VarInt codec, the packet framer, the status payload
//! parser, the match filter, the per-connection protocol state machine, and
//! the host-list partitioner.
use vstd::prelude::*;

pub mod client;
pub mod errors;
pub mod filter;
pub mod json;
pub mod packet;
pub mod scan;
pub mod status;
pub mod varint;

verus! {

/// One candidate host to scan, identified by its address string.
#[derive(Clone)]
pub struct Ip {
    pub address: String,
}

} // verus!
