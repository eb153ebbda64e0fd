//! A socket access verifier: both ends of a one-shot handshake protocol run
//! in the same process to prove that a socket address is reachable and can
//! carry a framed text protocol.
//!
//! The crate holds the decision logic of the three actors — the listener that
//! answers the handshake, the prober that drives it under a timeout, and the
//! orchestrator that maps the prober's outcome to a result — together with
//! the address model and configuration rules around them. The network and
//! file plumbing lives outside, and feeds these functions plain values.

pub mod addr;
pub mod config;
pub mod listener;
pub mod net;
pub mod orchestrator;
pub mod outcome;
pub mod parse;
pub mod prober;
pub mod protocol;
