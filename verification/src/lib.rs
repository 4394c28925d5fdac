//! Server-side core of a host-driven multiplayer quiz, plus the client and
//! single-player state machines that speak the same protocol.
//!
//! The library is pure state logic: every inbound event (a connection, a
//! decoded participant message, a host command line, a key press already
//! decoded to an intention) is applied to a state value by a verified
//! transition function, which returns the messages to deliver.  Transport,
//! rendering and the clock live outside and hand in plain values.

pub mod app;
pub mod client;
pub mod commands;
pub mod handlers;
pub mod ip;
pub mod laws;
pub mod protocol;
pub mod question;
pub mod state;
pub mod strutil;
