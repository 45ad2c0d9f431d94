//! The server: an upstream relay behind ContextVM tools.

pub mod config;
pub mod handler;
pub mod nostr;
pub mod proxy;
pub mod startup;
pub mod subscription;
