//! Core logic of a peer-to-peer blob sharing node: the transfer-state
//! tracker, the peer-address directory, the tiered download orchestrator,
//! and the notify fan-out/receive protocol decisions.
//!
//! Network, disk and transport calls stay outside this crate; the
//! functions here take the values those calls produce and decide what
//! the node does with them.
pub mod directory;
pub mod notify;
pub mod orchestrate;
pub mod peerid;
pub mod probe;
pub mod receive;
pub mod state;
pub mod strkv;
