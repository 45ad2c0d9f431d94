//! The bridge: plain NIP-01 clients to servers behind ContextVM.

pub mod cache;
pub mod call;
pub mod cell;
pub mod config;
pub mod conn;
pub mod nip11;
pub mod path;
pub mod relay;
pub mod server;
pub mod translate;
pub mod transport;
