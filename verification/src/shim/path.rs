//! The path that names a server: its public key in one of three encodings.

use vstd::prelude::*;

use crate::text::{is_hex, is_hex_digit, texts, trim, trim_of};

verus! {

/// A server that a path names.
#[derive(Debug, Clone, PartialEq, Eq)]
pub struct ParsedPath {
    /// The server's public key, in lower-case hexadecimal.
    pub hex: String,
    /// The relays that the path says lead to the server, without trailing
    /// slashes.
    pub relay_hints: Vec<String>,
}

pub struct ParsedPathView {
    pub hex: Seq<char>,
    pub relay_hints: Seq<Seq<char>>,
}

impl View for ParsedPath {
    type V = ParsedPathView;

    open spec fn view(&self) -> ParsedPathView {
        ParsedPathView { hex: self.hex@, relay_hints: texts(self.relay_hints@) }
    }
}

/// Why a path names no server.
#[derive(Debug, PartialEq)]
pub enum PathError {
    NotAPubkey,
    Invalid(String),
}

pub enum PathErrorView {
    NotAPubkey,
    Invalid(Seq<char>),
}

impl View for PathError {
    type V = PathErrorView;

    open spec fn view(&self) -> PathErrorView {
        match self {
            PathError::NotAPubkey => PathErrorView::NotAPubkey,
            PathError::Invalid(e) => PathErrorView::Invalid(e@),
        }
    }
}

impl PathError {
    pub open spec fn message_of(e: PathErrorView) -> Seq<char> {
        match e {
            PathErrorView::NotAPubkey =>
                "not a server pubkey (expected 64-char hex, npub, or nprofile)"@,
            PathErrorView::Invalid(e) => "invalid pubkey: "@ + e,
        }
    }

    /// What the client is told.
    pub fn message(&self) -> (r: String)
        ensures
            r@ == Self::message_of(self@),
    {
        match self {
            PathError::NotAPubkey =>
                "not a server pubkey (expected 64-char hex, npub, or nprofile)".to_owned(),
            PathError::Invalid(e) => "invalid pubkey: ".to_owned().concat(e.as_str()),
        }
    }
}

/// Whether `c` is a hexadecimal digit of either case.
pub open spec fn is_any_hex_digit(c: char) -> bool {
    is_hex_digit(c) || 'A' <= c <= 'F'
}

/// Whether `s` is `n` hexadecimal digits of either case.
pub open spec fn is_any_hex(s: Seq<char>, n: nat) -> bool {
    s.len() == n && forall|i: int| 0 <= i < s.len() ==> is_any_hex_digit(#[trigger] s[i])
}

/// A hexadecimal digit in lower case.
pub open spec fn lowered_digit(c: char) -> char {
    if 'A' <= c <= 'F' {
        ((c as u32) + 32) as char
    } else {
        c
    }
}

/// Hexadecimal digits in lower case.
pub open spec fn lowered(s: Seq<char>) -> Seq<char> {
    s.map_values(|c: char| lowered_digit(c))
}

/// `nostr_sdk::PublicKey::from_hex`, which takes 64 hexadecimal digits of either
/// case and nothing else, and `to_hex`, which writes the key in lower case.
#[verifier::external_body]
fn canonical_key(hex: &str) -> (r: Result<String, String>)
    ensures
        match r {
            Ok(key) => is_any_hex(hex@, 64) && key@ == lowered(hex@),
            Err(_) => !is_any_hex(hex@, 64),
        },
{
    match nostr_sdk::PublicKey::from_hex(hex) {
        Ok(key) => Ok(key.to_hex()),
        Err(e) => Err(e.to_string()),
    }
}

/// What a bech32 text stands for: a public key, alone or with relays, or
/// something that is no server.
#[derive(Debug, PartialEq)]
pub enum Entity {
    Pubkey(String),
    Profile { hex: String, relays: Vec<String> },
    Other,
}

pub enum EntityView {
    Pubkey(Seq<char>),
    Profile { hex: Seq<char>, relays: Seq<Seq<char>> },
    Other,
}

impl View for Entity {
    type V = EntityView;

    open spec fn view(&self) -> EntityView {
        match self {
            Entity::Pubkey(hex) => EntityView::Pubkey(hex@),
            Entity::Profile { hex, relays } => EntityView::Profile {
                hex: hex@,
                relays: texts(relays@),
            },
            Entity::Other => EntityView::Other,
        }
    }
}

pub open spec fn entity_view(e: Result<Entity, String>) -> Result<EntityView, Seq<char>> {
    match e {
        Ok(e) => Ok(e@),
        Err(e) => Err(e@),
    }
}

/// Whether a text ends without a slash.
pub open spec fn ends_without_slash(s: Seq<char>) -> bool {
    s.len() > 0 ==> s.last() != '/'
}

/// Whether the key of an entity is in canonical form, and its relays too.
pub open spec fn is_canonical(e: EntityView) -> bool {
    match e {
        EntityView::Pubkey(hex) => is_hex(hex, 64),
        EntityView::Profile { hex, relays } => is_hex(hex, 64) && forall|i: int|
            0 <= i < relays.len() ==> ends_without_slash(#[trigger] relays[i]),
        EntityView::Other => true,
    }
}

/// What a bech32 text stands for, or why it stands for nothing.
pub uninterp spec fn entity_of(s: Seq<char>) -> Result<EntityView, Seq<char>>;

/// `nostr_sdk::nips::nip19::Nip19::from_bech32`: what the text stands for, or the
/// text of the error, is a function of the text. Keys are written by
/// `PublicKey::to_hex`, in 64 lower-case hexadecimal digits, relays by
/// `RelayUrl::as_str_without_trailing_slash`.
#[verifier::external_body]
fn decode_entity(s: &str) -> (r: Result<Entity, String>)
    ensures
        entity_view(r) == entity_of(s@),
        r matches Ok(e) ==> is_canonical(e@),
{
    match <nostr_sdk::nips::nip19::Nip19 as nostr_sdk::FromBech32>::from_bech32(s) {
        Ok(nostr_sdk::nips::nip19::Nip19::Pubkey(key)) => Ok(Entity::Pubkey(key.to_hex())),
        Ok(nostr_sdk::nips::nip19::Nip19::Profile(p)) => Ok(Entity::Profile {
            hex: p.public_key.to_hex(),
            relays: p.relays.iter().map(|r| r.as_str_without_trailing_slash().to_owned()).collect(),
        }),
        Ok(_) => Ok(Entity::Other),
        Err(e) => Err(e.to_string()),
    }
}

/// The server that an entity names.
pub open spec fn entity_path(e: Result<EntityView, Seq<char>>) -> Result<
    ParsedPathView,
    PathErrorView,
> {
    match e {
        Ok(EntityView::Pubkey(hex)) => Ok(ParsedPathView { hex, relay_hints: Seq::empty() }),
        Ok(EntityView::Profile { hex, relays }) => Ok(ParsedPathView { hex, relay_hints: relays }),
        Ok(EntityView::Other) => Err(PathErrorView::NotAPubkey),
        Err(e) => Err(PathErrorView::Invalid(e)),
    }
}

/// The server that a path names: 64 hexadecimal digits or a bech32 text, with
/// white space round it or not.
pub open spec fn path_of(raw: Seq<char>) -> Result<ParsedPathView, PathErrorView> {
    let s = trim_of(raw);
    if s.len() == 0 {
        Err(PathErrorView::NotAPubkey)
    } else if is_any_hex(s, 64) {
        Ok(ParsedPathView { hex: lowered(s), relay_hints: Seq::empty() })
    } else {
        entity_path(entity_of(s))
    }
}

pub open spec fn path_view(r: Result<ParsedPath, PathError>) -> Result<
    ParsedPathView,
    PathErrorView,
> {
    match r {
        Ok(p) => Ok(p@),
        Err(e) => Err(e@),
    }
}

/// The server that an entity names.
pub fn path_from_entity(e: Result<Entity, String>) -> (r: Result<ParsedPath, PathError>)
    ensures
        path_view(r) == entity_path(entity_view(e)),
{
    match e {
        Ok(Entity::Pubkey(hex)) => {
            let relay_hints: Vec<String> = Vec::new();
            assert(texts(relay_hints@) =~= Seq::empty());
            Ok(ParsedPath { hex, relay_hints })
        },
        Ok(Entity::Profile { hex, relays }) => Ok(ParsedPath { hex, relay_hints: relays }),
        Ok(Entity::Other) => Err(PathError::NotAPubkey),
        Err(e) => Err(PathError::Invalid(e)),
    }
}

fn looks_hex(s: &str) -> (r: bool)
    ensures
        r == is_any_hex(s@, 64),
{
    let size: usize = s.unicode_len();
    if size != 64 {
        return false;
    }
    for i in 0..size
        invariant
            size == s@.len(),
            forall|j: int| 0 <= j < i ==> is_any_hex_digit(#[trigger] s@[j]),
    {
        let c: char = s.get_char(i);
        if !(('0' <= c && c <= '9') || ('a' <= c && c <= 'f') || ('A' <= c && c <= 'F')) {
            assert(!is_any_hex_digit(s@[i as int]));
            return false;
        }
    }
    true
}

/// Reads the path that names a server.
pub fn parse_path(raw: &str) -> (r: Result<ParsedPath, PathError>)
    ensures
        path_view(r) == path_of(raw@),
        r matches Ok(p) ==> is_hex(p.hex@, 64),
        r matches Ok(p) ==> forall|i: int|
            0 <= i < p.relay_hints@.len() ==> ends_without_slash(#[trigger] p.relay_hints@[i]@),
{
    let s: &str = trim(raw);
    if s.unicode_len() == 0 {
        return Err(PathError::NotAPubkey);
    }
    if looks_hex(s) {
        return match canonical_key(s) {
            Ok(hex) => {
                proof {
                    lemma_lowered_is_hex(s@);
                }
                let relay_hints: Vec<String> = Vec::new();
                assert(texts(relay_hints@) =~= Seq::empty());
                Ok(ParsedPath { hex, relay_hints })
            },
            Err(e) => Err(PathError::Invalid(e)),
        };
    }
    let entity: Result<Entity, String> = decode_entity(s);
    let ghost known = entity_view(entity);
    let r: Result<ParsedPath, PathError> = path_from_entity(entity);
    proof {
        if let Ok(p) = &r {
            assert forall|i: int| 0 <= i < p.relay_hints@.len() implies ends_without_slash(
                #[trigger] p.relay_hints@[i]@,
            ) by {
                assert(p@.relay_hints.len() == p.relay_hints@.len());
                assert(p@.relay_hints[i] == p.relay_hints@[i]@);
                assert(path_view(r) == Ok::<ParsedPathView, PathErrorView>(p@));
                assert(known is Ok && is_canonical(known->Ok_0));
                assert(known->Ok_0 is Profile && known->Ok_0->relays == p@.relay_hints);
            }
        }
    }
    r
}

proof fn lemma_lowered_is_hex(s: Seq<char>)
    requires
        is_any_hex(s, 64),
    ensures
        is_hex(lowered(s), 64),
{
    assert forall|i: int| 0 <= i < lowered(s).len() implies is_hex_digit(#[trigger] lowered(s)[i]) by {
        assert(is_any_hex_digit(s[i]));
    }
}

proof fn lemma_hex_is_trimmed(hex: Seq<char>)
    requires
        hex.len() > 0,
        forall|i: int| 0 <= i < hex.len() ==> is_any_hex_digit(#[trigger] hex[i]),
    ensures
        trim_of(hex) == hex,
{
    assert(is_any_hex_digit(hex[0]));
    assert(is_any_hex_digit(hex[hex.len() - 1]));
}

/// A server's key is its own canonical path: read again it names the same
/// server, with no relays.
pub proof fn law_key_names_its_server(hex: Seq<char>)
    requires
        is_hex(hex, 64),
    ensures
        path_of(hex) == Ok::<ParsedPathView, PathErrorView>(
            ParsedPathView { hex, relay_hints: Seq::empty() },
        ),
{
    assert forall|i: int| 0 <= i < hex.len() implies is_any_hex_digit(#[trigger] hex[i]) by {
        assert(is_hex_digit(hex[i]));
    }
    lemma_hex_is_trimmed(hex);
    assert forall|i: int| 0 <= i < hex.len() implies lowered(hex)[i] == hex[i] by {
        assert(is_hex_digit(hex[i]));
    }
    assert(lowered(hex) =~= hex);
}

/// All encodings of one identity share one key: hexadecimal of either case, a
/// bare key and a profile, whatever its relays.
pub proof fn law_encodings_share_the_key(
    digits: Seq<char>,
    key: Seq<char>,
    npub: Seq<char>,
    nprofile: Seq<char>,
    relays: Seq<Seq<char>>,
)
    requires
        is_any_hex(digits, 64),
        key == lowered(digits),
        !is_any_hex(trim_of(npub), 64),
        !is_any_hex(trim_of(nprofile), 64),
        trim_of(npub).len() > 0,
        trim_of(nprofile).len() > 0,
        entity_of(trim_of(npub)) == Ok::<EntityView, Seq<char>>(EntityView::Pubkey(key)),
        entity_of(trim_of(nprofile)) == Ok::<EntityView, Seq<char>>(
            EntityView::Profile { hex: key, relays },
        ),
    ensures
        path_of(digits) matches Ok(a) && path_of(npub) matches Ok(b) && path_of(nprofile) matches Ok(
            c,
        ) && a.hex == key && b.hex == key && c.hex == key && a.relay_hints.len() == 0
            && b.relay_hints.len() == 0 && c.relay_hints == relays,
{
    lemma_hex_is_trimmed(digits);
}

/// White space round a path changes nothing.
pub proof fn law_white_space_is_ignored(raw: Seq<char>)
    ensures
        path_of(trim_of(raw)) == path_of(raw),
{
    crate::text::lemma_trim_idempotent(raw);
}

/// A path is read without white space round it: 64 hexadecimal digits are the key,
/// in lower case, a bech32 text is the key that it stands for, with the relays that it
/// names, and anything else, nothing at all included, is refused with the reason.
pub proof fn law_paths_name_servers(
    raw: &str,
    s: &str,
    r: Result<ParsedPath, PathError>,
)
    requires
        call_ensures(parse_path, (raw,), r),
        call_ensures(trim, (raw,), s),
    ensures
        s@.len() == 0 ==> (r matches Err(PathError::NotAPubkey)),
        is_digits_of_a_key(s@) ==> (r matches Ok(p) && p.relay_hints@.len() == 0 && p.hex@.len()
            == 64 && forall|i: int|
            0 <= i < 64 ==> #[trigger] p.hex@[i] == if 'A' <= s@[i] <= 'F' {
                ((s@[i] as u32) + 32) as char
            } else {
                s@[i]
            }),
        s@.len() > 0 && !is_digits_of_a_key(s@) ==> match entity_of(s@) {
            Ok(EntityView::Pubkey(hex)) => r matches Ok(p) && p.hex@ == hex && p.relay_hints@.len()
                == 0,
            Ok(EntityView::Profile { hex, relays }) => r matches Ok(p) && p.hex@ == hex && texts(
                p.relay_hints@,
            ) == relays,
            Ok(EntityView::Other) => r matches Err(PathError::NotAPubkey),
            Err(cause) => r matches Err(PathError::Invalid(told)) && told@ == cause,
        },
{
    assert(is_digits_of_a_key(s@) <==> is_any_hex(s@, 64)) by {
        if is_digits_of_a_key(s@) {
            assert forall|i: int| 0 <= i < s@.len() implies is_any_hex_digit(#[trigger] s@[i]) by {}
        }
        if is_any_hex(s@, 64) {
            assert forall|i: int| 0 <= i < s@.len() implies ('0' <= #[trigger] s@[i] <= '9' || 'a'
                <= s@[i] <= 'f' || 'A' <= s@[i] <= 'F') by {
                assert(is_any_hex_digit(s@[i]));
            }
        }
    }
    if let Ok(p) = r {
        assert(texts(p.relay_hints@).len() == p.relay_hints@.len());
    }
}

/// Whether `s` is 64 hexadecimal digits of either case.
pub open spec fn is_digits_of_a_key(s: Seq<char>) -> bool {
    s.len() == 64 && forall|i: int|
        0 <= i < s.len() ==> ('0' <= #[trigger] s[i] <= '9' || 'a' <= s[i] <= 'f' || 'A' <= s[i]
            <= 'F')
}

/// What a bech32 text stands for is taken over: the key, and the relays of a profile.
pub proof fn law_entities_name_servers(e: Result<Entity, String>, r: Result<ParsedPath, PathError>)
    requires
        call_ensures(path_from_entity, (e,), r),
    ensures
        match e {
            Ok(Entity::Pubkey(hex)) => r matches Ok(p) && p.hex@ == hex@ && p.relay_hints@.len()
                == 0,
            Ok(Entity::Profile { hex, relays }) => r matches Ok(p) && p.hex@ == hex@ && texts(
                p.relay_hints@,
            ) == texts(relays@),
            Ok(Entity::Other) => r matches Err(PathError::NotAPubkey),
            Err(cause) => r matches Err(PathError::Invalid(told)) && told@ == cause@,
        },
{
    if let Ok(p) = r {
        assert(texts(p.relay_hints@).len() == p.relay_hints@.len());
    }
}

/// What the client is told says what a path should be, or what is wrong with it.
pub proof fn law_path_errors_say_why(e: PathError, r: String)
    requires
        call_ensures(PathError::message, (&e,), r),
    ensures
        e is NotAPubkey ==> r@ == "not a server pubkey (expected 64-char hex, npub, or nprofile)"@,
        e matches PathError::Invalid(cause) ==> r@ == "invalid pubkey: "@ + cause@,
{
}

} // verus!
