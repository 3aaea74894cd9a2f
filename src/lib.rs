//! Node-local message routing for an actor mesh: addresses, a topology
//! directory, a buffered tick-driven router, multi-recipient exchanges,
//! service registration and plugin bookkeeping.
pub mod config;
pub mod error;
pub mod exchange;
pub mod message;
pub mod node;
pub mod operation;
pub mod plugin;
pub mod route;
pub mod service;
pub mod signal;
pub mod source;
pub mod topology;
pub mod transport;
