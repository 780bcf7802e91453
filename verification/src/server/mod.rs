//! The relay: what it answers and decides, over what its database holds.

pub mod admission;
pub mod auth;
pub mod connection;
pub mod datetime;
pub mod delivery;
pub mod guarantees;
pub mod handlers;
pub mod message;
pub mod prekeys;
pub mod queue;
pub mod receipts;
pub mod relay;
pub mod schema;
pub mod service;
pub mod serving;
