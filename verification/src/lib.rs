//! Client-side endpoint logic for a hierarchical RPC protocol.
//!
//! The crate covers the protocol decisions of such a client: correlating
//! responses to outstanding calls by request id, the two-step challenge
//! login, heartbeat probing, and routing inbound requests through a tree
//! of nodes that expose introspectable methods.

use vstd::prelude::*;

pub mod client;
pub mod correlator;
pub mod heartbeat;
pub mod message;
pub mod metamethod;
pub mod shvnode;
pub mod strings;
pub mod utils;
pub mod value;

verus! {

} // verus!
