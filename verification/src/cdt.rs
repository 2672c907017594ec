//! The inspector protocol: its messages, and the client that speaks it.

pub mod client;
pub mod models;
