//! Bully leader election for a self-organising cluster of peers.
//!
//! The crate holds the decisions of the protocol and none of its I/O: the
//! caller resolves names, sends requests and waits for timers, and hands what
//! came back to the functions here. Every function is verified against a
//! mathematical model of the node's state, and the laws of the protocol are
//! proved over that model in [`cluster`].

pub mod cluster;
pub mod directory;
pub mod election;
pub mod fortune;
pub mod ident;
pub mod monitor;
pub mod node;
pub mod peer;
pub mod rpc;
