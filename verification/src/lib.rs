//! A single-threaded, readiness-driven server core.
//!
//! The crate holds the decisions of a reactor that multiplexes several
//! listening sockets through one readiness-notification context. It performs
//! no input or output itself: a driver carries out each [`protocol::Action`]
//! and reports what happened as an [`protocol::Event`].
//!
//! - [`config`] and [`address`]: the servers to run, and the form that their
//!   bind addresses must have.
//! - [`registry`] and [`token`]: which listener serves which server, and how
//!   a readiness event leads back to its listener.
//! - [`protocol`]: the reactor as a state machine over plain values.
//! - [`reactor`]: the reactor itself, proved to follow that state machine.
//! - [`handler`]: what to answer on an accepted connection.
//! - [`laws`]: what holds of every run, proved of the state machine.

pub mod address;
pub mod config;
pub mod handler;
pub mod laws;
pub mod protocol;
pub mod reactor;
pub mod registry;
pub mod token;
