//! Moves one file between two endpoints over the first usable transport.
//!
//! The library holds the decisions: which transport to use, how a payload is
//! framed on a byte stream, and how an offer/answer negotiation advances.
//! Sockets, files, clocks and peer connections stay with the caller, who
//! reports what happened and is told what to do next.

pub mod transport;
pub mod error;
pub mod framing;
pub mod selector;
pub mod naming;
pub mod negotiation;
pub mod coordinator;
pub mod protocols;
pub mod tools;
