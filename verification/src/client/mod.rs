//! The client: what it keeps, what it sends and what it shows.

pub mod acting;
pub mod app;
pub mod chat;
pub mod command_popup;
pub mod composing;
pub mod conversing;
pub mod crypto_mgr;
pub mod decode;
pub mod decrypting;
pub mod encrypting;
pub mod error;
pub mod exchange;
pub mod guarantees;
pub mod input;
pub mod keeping;
pub mod net;
pub mod outbound;
pub mod outbox;
pub mod persistence;
pub mod prekeys;
pub mod reactions;
pub mod reading;
pub mod replay;
pub mod responses;
pub mod restarting;
pub mod sessions;
pub mod showing;
pub mod status_bar;
pub mod steps;
pub mod verification;
pub mod view;
