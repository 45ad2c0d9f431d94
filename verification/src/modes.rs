//! How ContextVM messages travel.

use vstd::prelude::*;

verus! {

/// Whether ContextVM messages are encrypted.
#[derive(Debug, Clone, Copy, PartialEq, Eq, Structural)]
pub enum EncryptionMode {
    Optional,
    Required,
    Disabled,
}

/// Which kind of gift wrap carries ContextVM messages.
#[derive(Debug, Clone, Copy, PartialEq, Eq, Structural)]
pub enum GiftWrapMode {
    /// Either kind.
    Optional,
    /// Only the transient kind, which relays do not store.
    Ephemeral,
    /// Only the kind that relays store.
    Persistent,
}

} // verus!
