//! Keyboard capture relay: the decisions of the capture loop, the broadcast
//! hub and the client sessions, and the JSON frames that cross the wire.
//!
//! Everything here works on plain values. The program around the library
//! talks to the display server and to the network, and asks the library what
//! each raw occurrence, request or transport outcome means.

pub mod event;
pub mod modifiers;
pub mod capture;
pub mod grab;
pub mod hub;
pub mod acceptor;
pub mod wire;
pub mod session;

pub use event::{Event, EventView, Request};
