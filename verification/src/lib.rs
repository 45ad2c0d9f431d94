//! A Nostr relay as a ContextVM server, and a bridge for clients that do not
//! speak ContextVM.

pub mod config;
pub mod env;
pub mod json;
pub mod keys;
pub mod modes;
pub mod relay;
pub mod server;
pub mod shim;
pub mod text;
pub mod urls;
