//! The key under which a program speaks.

use nostr_sdk::{Keys, ToBech32};
use outlay::keys::{identity, identity_of};

#[test]
fn a_private_key_makes_its_identity() {
    let keys = Keys::generate();
    let hex = keys.secret_key().to_secret_hex();
    let nsec = keys.secret_key().to_bech32().unwrap();
    for text in [hex, nsec] {
        let id = identity(&Some(text)).unwrap();
        assert_eq!(id.public_key, keys.public_key().to_hex());
        assert_eq!(id.keys.public_key(), keys.public_key());
    }
    assert_eq!(identity_of(keys.clone()).public_key, keys.public_key().to_hex());
}

#[test]
fn a_text_that_is_no_key_is_refused() {
    let said = identity(&Some("no key".into())).err().unwrap();
    assert_eq!(said, Keys::parse("no key").unwrap_err().to_string());
}

#[test]
fn without_a_key_a_new_one_is_made() {
    let a = identity(&None).unwrap();
    let b = identity(&None).unwrap();
    assert_ne!(a.public_key, b.public_key);
    assert_eq!(a.public_key.len(), 64);
}
