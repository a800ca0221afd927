//! The decisions of the Smartotum controller.
//!
//! The controller discovers devices on the local network, collects the events that they send and
//! keeps their descriptions in a distributed hash table up to date. This crate holds what it
//! decides at each point; the requests themselves are made around it.

pub mod text;
pub mod json;
pub mod events;
pub mod topics;
pub mod lights;
pub mod state;
pub mod devices;
pub mod pass;
pub mod pass_laws;
pub mod retry;
pub mod scanning;
pub mod messages;
pub mod network;
