//! Lifecycle management and input polling for a multi-interface USB graphics
//! tablet, written as pure decision logic.
//!
//! Nothing in this crate touches a bus. Every component is a function, or a
//! small state machine, from plain values to plain values: the caller performs
//! each transport request that a component asks for and hands the transport's
//! answer back. What the components decide is stated in their contracts.

pub mod descriptor;
pub mod error;
pub mod handshake;
pub mod lifecycle;
pub mod locator;
pub mod poll_laws;
pub mod poller;
pub mod topology;
