//! The key under which a program speaks.

use vstd::prelude::*;

use crate::text::is_hex;

verus! {

/// `nostr_sdk::Keys`, carried whole.
#[verifier::external_type_specification]
#[verifier::external_body]
pub struct ExKeys(nostr_sdk::Keys);

/// The keys that a private key's text stands for, or why it stands for none.
pub uninterp spec fn keys_of(text: Seq<char>) -> Result<nostr_sdk::Keys, Seq<char>>;

/// The public key of a pair, in hexadecimal.
pub uninterp spec fn public_hex_of(keys: nostr_sdk::Keys) -> Seq<char>;

/// `contextvm_sdk::signer::from_sk`: the keys that a private key's text, hex or
/// nsec, stands for, or the text of the error, is a function of the text.
#[verifier::external_body]
fn keys_from(text: &str) -> (r: Result<nostr_sdk::Keys, String>)
    ensures
        match r {
            Ok(keys) => keys_of(text@) == Ok::<nostr_sdk::Keys, Seq<char>>(keys),
            Err(e) => keys_of(text@) == Err::<nostr_sdk::Keys, Seq<char>>(e@),
        },
{
    contextvm_sdk::signer::from_sk(text).map_err(|e| e.to_string())
}

/// `contextvm_sdk::signer::generate`: new keys. Which ones rests on chance.
#[verifier::external_body]
fn new_keys() -> nostr_sdk::Keys {
    contextvm_sdk::signer::generate()
}

/// `nostr_sdk::Keys::public_key` and `PublicKey::to_hex`: a function of the keys,
/// 64 lower-case hexadecimal digits.
#[verifier::external_body]
fn public_hex(keys: &nostr_sdk::Keys) -> (r: String)
    ensures
        r@ == public_hex_of(*keys),
        is_hex(r@, 64),
{
    keys.public_key().to_hex()
}

/// The keys of a program, and the public one in hexadecimal.
pub struct Identity {
    pub keys: nostr_sdk::Keys,
    pub public_key: String,
}

/// The identity that a pair of keys makes.
pub fn identity_of(keys: nostr_sdk::Keys) -> (r: Identity)
    ensures
        r.keys == keys,
        r.public_key@ == public_hex_of(keys),
        is_hex(r.public_key@, 64),
{
    let public_key: String = public_hex(&keys);
    Identity { keys, public_key }
}

/// The identity of a program: that of the private key it is given, or a new one
/// if it is given none. An `Err` says why the private key is none.
pub fn identity(private_key: &Option<String>) -> (r: Result<Identity, String>)
    ensures
        match r {
            Ok(id) => id.public_key@ == public_hex_of(id.keys) && is_hex(id.public_key@, 64) && (
            private_key matches Some(text) ==> keys_of(text@) == Ok::<nostr_sdk::Keys, Seq<char>>(
                id.keys,
            )),
            Err(e) => private_key matches Some(text) && keys_of(text@) == Err::<
                nostr_sdk::Keys,
                Seq<char>,
            >(e@),
        },
{
    match private_key {
        Some(text) => match keys_from(text.as_str()) {
            Ok(keys) => Ok(identity_of(keys)),
            Err(e) => Err(e),
        },
        None => Ok(identity_of(new_keys())),
    }
}

/// A private key that is given decides: its keys are used, and the public one is
/// theirs; one that is none is refused with the reason. Without one there are always
/// keys.
pub proof fn law_given_key_is_used(private_key: Option<String>, r: Result<Identity, String>)
    requires
        call_ensures(identity, (&private_key,), r),
    ensures
        private_key is None ==> r is Ok,
        private_key matches Some(text) ==> match keys_of(text@) {
            Ok(keys) => r matches Ok(id) && id.keys == keys,
            Err(cause) => r matches Err(e) && e@ == cause,
        },
        r matches Ok(id) ==> id.public_key@ == public_hex_of(id.keys) && id.public_key@.len() == 64,
{
}

/// An identity is its keys and their public one.
pub proof fn law_identity_is_its_keys(keys: nostr_sdk::Keys, r: Identity)
    requires
        call_ensures(identity_of, (keys,), r),
    ensures
        r.keys == keys,
        r.public_key@ == public_hex_of(keys),
{
}

} // verus!
