//! Correlation coordinator between a chat bot and a web identity-verification
//! service.
//!
//! A user starts a verification in chat and finishes it on the web. The two
//! services share nothing but two bounded message channels, and the bot keeps
//! a registry of the verifications that are in flight. This crate holds the
//! rules of that rendezvous: the registry, the messages, what each service
//! loop decides on each event, and the lifecycle of the two loops.

pub mod error;
pub mod identity;
pub mod model;
mod concurrent_map;
pub mod registry;
pub mod message;
pub mod channel;
pub mod config;
pub mod bot;
pub mod history;
pub mod auth;
pub mod supervisor;
