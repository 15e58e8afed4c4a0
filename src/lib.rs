//! A peer-to-peer state-channel node: a binary wire codec for message
//! envelopes and ledger instructions, the local instruction ledger, the
//! registry of connected peers, and the decisions of the node's event loop.

pub mod wire;
pub mod message;
pub mod instruction;
pub mod peers;
pub mod ledger;
pub mod gossip;
pub mod node;
