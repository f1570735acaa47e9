//! Concurrent transaction broadcast over an anonymizing overlay network.
//!
//! The heart of the crate is the broadcast orchestrator: it drains a pool of
//! candidate peer addresses, keeps a bounded number of send attempts in
//! flight, and declares the broadcast successful once a quorum of peers has
//! accepted the transaction. The orchestrator is a plain state machine; the
//! asynchronous plumbing that performs the actual network sends drives it
//! from outside through its verified transition methods.

pub mod connect;
pub mod orchestrator;
pub mod peers;
