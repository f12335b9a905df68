//! Coordination engine of a multi-host keyboard and mouse sharing daemon.
//!
//! The library holds the decisions: which node receives captured input, when a
//! switch happens, which peers are alive, and what has to be sent where. The
//! caller performs the effects it returns (sockets, clipboard, notifications).

pub mod node;
pub mod message;
pub mod search;
pub mod keys;
pub mod text;
pub mod model;
pub mod config;
pub mod coordinator;
pub mod laws;
pub mod notification;
pub mod evdev;
pub mod supervisor;
pub mod relay;
pub mod codec;
