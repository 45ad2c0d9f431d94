//! Transports to servers: which relays they use, and which of them are kept.

use vstd::prelude::*;

use crate::json::{entries_view, fields_of, Json, JsonView};
use crate::modes::{EncryptionMode, GiftWrapMode};
use crate::shim::cache::{
    cache_get, cache_len, cache_oldest, cache_put, cache_room, cached, new_cache, place, room, touched,
    LARGEST_CACHE,
};
use crate::shim::config::{ShimConfig, ShimConfigView};
use crate::shim::path::{ends_without_slash, ParsedPath, ParsedPathView};
use crate::text::{opt_str, opt_text, same, texts};

verus! {

/// The client side of a transport: it makes calls and serves none.
#[derive(Debug, Clone, Copy, PartialEq, Eq, Structural)]
pub struct ShimClient;

/// The normal form of a relay URL, if it is one.
pub uninterp spec fn relay_url_of(url: Seq<char>) -> Option<Seq<char>>;

/// `nostr_sdk::RelayUrl::parse` and `as_str_without_trailing_slash`: the normal
/// form of a URL, or that it is no relay URL, is a function of the URL. The normal
/// form ends without a slash.
#[verifier::external_body]
fn relay_url(url: &str) -> (r: Option<String>)
    ensures
        opt_text(r) == relay_url_of(url@),
        r matches Some(s) ==> ends_without_slash(s@),
{
    match nostr_sdk::RelayUrl::parse(url) {
        Ok(u) => Some(u.as_str_without_trailing_slash().to_owned()),
        Err(_) => None,
    }
}

/// A URL for comparison: its normal form, or as it is if it has none.
pub open spec fn norm_of(url: Seq<char>) -> Seq<char> {
    match relay_url_of(url) {
        Some(s) => s,
        None => url,
    }
}

fn norm_url(url: &str) -> (r: String)
    ensures
        r@ == norm_of(url@),
{
    match relay_url(url) {
        Some(s) => s,
        None => url.to_owned(),
    }
}

/// The normal forms of a list of URLs.
pub open spec fn norms_of(urls: Seq<Seq<char>>) -> Seq<Seq<char>> {
    urls.map_values(|u: Seq<char>| norm_of(u))
}

/// The relay to dial for a candidate: the loopback relay, where it runs and the
/// candidate is one of the bridge's own URLs, else the candidate.
pub open spec fn dialled(
    candidate: Seq<char>,
    norm: Seq<char>,
    own: Seq<Seq<char>>,
    loopback: Option<Seq<char>>,
) -> Seq<char> {
    match loopback {
        Some(url) => if own.contains(norm) {
            url
        } else {
            candidate
        },
        None => candidate,
    }
}

/// The relays to dial for a list of candidates.
pub open spec fn resolved(
    candidates: Seq<Seq<char>>,
    norms: Seq<Seq<char>>,
    own: Seq<Seq<char>>,
    loopback: Option<Seq<char>>,
) -> Seq<Seq<char>> {
    Seq::new(candidates.len(), |i: int| dialled(candidates[i], norms[i], own, loopback))
}

/// The relays that may lead to a server: those that its path names, or the
/// bridge's own choice if it names none.
pub open spec fn candidates_of(cfg: ShimConfigView, parsed: ParsedPathView) -> Seq<Seq<char>> {
    if parsed.relay_hints.len() > 0 {
        parsed.relay_hints
    } else {
        cfg.relay_urls
    }
}

/// The relays to dial for a server.
pub open spec fn relay_urls_of(
    cfg: ShimConfigView,
    parsed: ParsedPathView,
    loopback: Option<Seq<char>>,
) -> Seq<Seq<char>> {
    let candidates = candidates_of(cfg, parsed);
    resolved(candidates, norms_of(candidates), norms_of(cfg.public_urls), loopback)
}

fn norm_urls(urls: &Vec<String>) -> (r: Vec<String>)
    ensures
        texts(r@) == norms_of(texts(urls@)),
        r@.len() == urls@.len(),
{
    let size: usize = urls.len();
    let mut out: Vec<String> = Vec::new();
    for i in 0..size
        invariant
            size == urls@.len(),
            out@.len() == i,
            forall|j: int| 0 <= j < i ==> (#[trigger] out@[j])@ == norm_of(urls@[j]@),
    {
        out.push(norm_url(urls[i].as_str()));
    }
    assert(texts(out@) =~= norms_of(texts(urls@)));
    out
}

fn lists(urls: &Vec<String>, url: &str) -> (r: bool)
    ensures
        r == texts(urls@).contains(url@),
{
    let size: usize = urls.len();
    for i in 0..size
        invariant
            size == urls@.len(),
            forall|j: int| 0 <= j < i ==> (#[trigger] urls@[j])@ != url@,
    {
        if same(urls[i].as_str(), url) {
            assert(texts(urls@)[i as int] == url@);
            return true;
        }
    }
    assert forall|j: int| 0 <= j < texts(urls@).len() implies texts(urls@)[j] != url@ by {
        assert(texts(urls@)[j] == urls@[j]@);
    }
    false
}

/// The relays to dial for a list of candidates with the normal forms `norms`,
/// `own` being the normal forms of the bridge's own URLs.
pub fn rewrite_own_urls(
    candidates: &Vec<String>,
    norms: &Vec<String>,
    own: &Vec<String>,
    loopback: Option<&str>,
) -> (r: Vec<String>)
    requires
        norms@.len() == candidates@.len(),
    ensures
        texts(r@) == resolved(
            texts(candidates@),
            texts(norms@),
            texts(own@),
            opt_str(loopback),
        ),
{
    let size: usize = candidates.len();
    let mut out: Vec<String> = Vec::new();
    for i in 0..size
        invariant
            size == candidates@.len(),
            size == norms@.len(),
            out@.len() == i,
            forall|j: int|
                0 <= j < i ==> (#[trigger] out@[j])@ == dialled(
                    candidates@[j]@,
                    norms@[j]@,
                    texts(own@),
                    opt_str(loopback),
                ),
    {
        let url: String = match loopback {
            Some(relay) => if lists(own, norms[i].as_str()) {
                relay.to_owned()
            } else {
                candidates[i].as_str().to_owned()
            },
            None => candidates[i].as_str().to_owned(),
        };
        out.push(url);
    }
    assert(texts(out@) =~= resolved(
        texts(candidates@),
        texts(norms@),
        texts(own@),
        opt_str(loopback),
    ));
    out
}

/// The relays to dial for a server. `loopback` is the bridge's own relay, where
/// it runs.
pub fn resolve_relay_urls(cfg: &ShimConfig, parsed: &ParsedPath, loopback: Option<&str>) -> (r: Vec<
    String,
>)
    ensures
        texts(r@) == relay_urls_of(cfg@, parsed@, opt_str(loopback)),
{
    let own: Vec<String> = norm_urls(&cfg.public_urls);
    assert(texts(parsed.relay_hints@).len() == parsed.relay_hints@.len());
    if parsed.relay_hints.len() > 0 {
        let norms: Vec<String> = norm_urls(&parsed.relay_hints);
        rewrite_own_urls(&parsed.relay_hints, &norms, &own, loopback)
    } else {
        let norms: Vec<String> = norm_urls(&cfg.relay_urls);
        rewrite_own_urls(&cfg.relay_urls, &norms, &own, loopback)
    }
}

/// While its own relay runs, the bridge never dials itself from outside: each
/// relay to dial is the loopback relay or none of the bridge's own URLs.
pub proof fn law_never_dials_itself(
    cfg: ShimConfigView,
    parsed: ParsedPathView,
    loopback: Seq<char>,
    i: int,
)
    requires
        0 <= i < relay_urls_of(cfg, parsed, Some(loopback)).len(),
    ensures
        ({
            let url = relay_urls_of(cfg, parsed, Some(loopback))[i];
            url == loopback || !norms_of(cfg.public_urls).contains(norm_of(url))
        }),
{
}

/// Relays of others are dialled as they are named, and every relay is while the
/// bridge's own does not run.
pub proof fn law_other_relays_are_dialled_as_named(
    cfg: ShimConfigView,
    parsed: ParsedPathView,
    loopback: Option<Seq<char>>,
    i: int,
)
    requires
        0 <= i < candidates_of(cfg, parsed).len(),
    ensures
        relay_urls_of(cfg, parsed, loopback).len() == candidates_of(cfg, parsed).len(),
        loopback is None || !norms_of(cfg.public_urls).contains(
            norm_of(candidates_of(cfg, parsed)[i]),
        ) ==> relay_urls_of(cfg, parsed, loopback)[i] == candidates_of(cfg, parsed)[i],
{
}

/// The relays that a path names win over the bridge's settings.
pub proof fn law_hints_win(cfg: ShimConfigView, parsed: ParsedPathView)
    ensures
        parsed.relay_hints.len() > 0 ==> relay_urls_of(cfg, parsed, None) == parsed.relay_hints,
        parsed.relay_hints.len() == 0 ==> relay_urls_of(cfg, parsed, None) == cfg.relay_urls,
{
    assert(relay_urls_of(cfg, parsed, None) =~= candidates_of(cfg, parsed));
}

/// How a transport to a server is set up.
#[derive(Debug, PartialEq)]
pub struct ClientSetup {
    pub server_pubkey: String,
    pub relay_urls: Vec<String>,
    /// A private key; a new one is made where there is none.
    pub private_key: Option<String>,
    pub encryption_mode: EncryptionMode,
    pub gift_wrap_mode: GiftWrapMode,
    /// Whether the greeting of the protocol is left out.
    pub stateless: bool,
    pub open_stream: bool,
    pub timeout_secs: u64,
}

/// The transport to a server. It greets nobody, since a server keeps nothing
/// between calls, and it can stream.
pub fn client_setup(cfg: &ShimConfig, parsed: &ParsedPath, loopback: Option<&str>) -> (r: ClientSetup)
    ensures
        r.server_pubkey@ == parsed.hex@,
        texts(r.relay_urls@) == relay_urls_of(cfg@, parsed@, opt_str(loopback)),
        opt_text(r.private_key) == cfg@.private_key,
        r.encryption_mode == cfg.encryption_mode,
        r.gift_wrap_mode == cfg.gift_wrap_mode,
        r.stateless,
        r.open_stream,
        r.timeout_secs == cfg.connect_timeout_secs,
{
    let private_key: Option<String> = match &cfg.private_key {
        Some(key) => Some(key.as_str().to_owned()),
        None => None,
    };
    ClientSetup {
        server_pubkey: parsed.hex.as_str().to_owned(),
        relay_urls: resolve_relay_urls(cfg, parsed, loopback),
        private_key,
        encryption_mode: cfg.encryption_mode,
        gift_wrap_mode: cfg.gift_wrap_mode,
        stateless: true,
        open_stream: true,
        timeout_secs: cfg.connect_timeout_secs,
    }
}

/// What is said of a transport that does not start in time.
pub const STARTUP_TIMEOUT: &'static str = "client transport startup timed out";

/// Whether no identity has two entries.
pub open spec fn keys_distinct(entries: Seq<(Seq<char>, usize)>) -> bool {
    forall|i: int, j: int|
        0 <= i < j < entries.len() ==> (#[trigger] entries[i]).0 != (#[trigger] entries[j]).0
}

/// Whether no two entries share a slot, and the slots are the first ones.
pub open spec fn slots_distinct(entries: Seq<(Seq<char>, usize)>) -> bool {
    &&& forall|i: int, j: int|
        0 <= i < j < entries.len() ==> (#[trigger] entries[i]).1 != (#[trigger] entries[j]).1
    &&& forall|i: int| 0 <= i < entries.len() ==> (#[trigger] entries[i]).1 < entries.len()
}

/// Whether `entries` are the entries of a cache with room for `cap`.
pub open spec fn is_cache(entries: Seq<(Seq<char>, usize)>, cap: nat) -> bool {
    cap >= 1 && entries.len() <= cap && keys_distinct(entries) && slots_distinct(entries)
}

/// The slot for an identity that has none: the next one, or in a full cache that
/// of the least recently used identity.
pub open spec fn new_slot(entries: Seq<(Seq<char>, usize)>, cap: nat) -> usize {
    if entries.len() == cap {
        entries.last().1
    } else {
        entries.len() as usize
    }
}

/// The entries after an identity has been asked for: it comes first, and in a
/// full cache one that had no entry takes the place of the least recently used.
pub open spec fn asked(entries: Seq<(Seq<char>, usize)>, cap: nat, key: Seq<char>) -> Seq<
    (Seq<char>, usize),
> {
    let i = place(entries, key);
    if i < entries.len() {
        touched(entries, i)
    } else if entries.len() == cap {
        seq![(key, new_slot(entries, cap))] + entries.drop_last()
    } else {
        seq![(key, new_slot(entries, cap))] + entries
    }
}

/// Which slot holds the transport of an identity, and whether it is to be built
/// anew there.
#[derive(Debug, Clone, Copy, PartialEq, Eq, Structural)]
pub struct Lookup {
    pub slot: usize,
    pub fresh: bool,
}

/// The identities whose transports are kept, up to a number. Each has a slot of
/// its own.
pub struct Slots {
    entries: lru::LruCache<String, usize>,
}

impl Slots {
    /// The identities and their slots, the most recently asked for first.
    pub closed spec fn entries(&self) -> Seq<(Seq<char>, usize)> {
        cached(self.entries)
    }

    /// How many identities are kept at most.
    pub closed spec fn cap(&self) -> nat {
        room(self.entries)
    }

    pub open spec fn wf(&self) -> bool {
        is_cache(self.entries(), self.cap())
    }

    pub fn new(cap: usize) -> (r: Slots)
        requires
            1 <= cap <= LARGEST_CACHE,
        ensures
            r.wf(),
            r.entries().len() == 0,
            r.cap() == cap,
    {
        Slots { entries: new_cache(cap) }
    }

    /// Asks for the slot of a server. It is the same for all paths that name the
    /// server.
    pub fn find(&mut self, parsed: &ParsedPath) -> (r: Lookup)
        requires
            old(self).wf(),
        ensures
            final(self).wf(),
            final(self).cap() == old(self).cap(),
            final(self).entries() == asked(old(self).entries(), old(self).cap(), parsed.hex@),
            final(self).entries()[0] == (parsed.hex@, r.slot),
            r.slot < old(self).cap(),
            r.fresh == (place(old(self).entries(), parsed.hex@) == old(self).entries().len()),
    {
        let cap: usize = cache_room(&self.entries);
        proof {
            lemma_place(self.entries(), parsed.hex@);
            lemma_asked_is_cache(self.entries(), self.cap(), parsed.hex@);
        }
        if let Some(slot) = cache_get(&mut self.entries, parsed.hex.as_str()) {
            return Lookup { slot, fresh: false };
        }
        let len: usize = cache_len(&self.entries);
        let slot: usize = if len == cap {
            match cache_oldest(&self.entries) {
                Some(slot) => slot,
                None => 0,
            }
        } else {
            len
        };
        let _ = cache_put(&mut self.entries, parsed.hex.as_str().to_owned(), slot);
        Lookup { slot, fresh: true }
    }
}

/// What is kept for an identity, `cells` being what each slot holds.
pub open spec fn cell_of<C>(
    entries: Seq<(Seq<char>, usize)>,
    cells: Seq<C>,
    key: Seq<char>,
) -> Option<C> {
    let i = place(entries, key);
    if i < entries.len() {
        Some(cells[entries[i].1 as int])
    } else {
        None
    }
}

/// What the slots hold after an identity has been asked for, `spare` being for
/// one that has no slot yet.
pub open spec fn cells_after<C>(
    entries: Seq<(Seq<char>, usize)>,
    cells: Seq<C>,
    cap: nat,
    key: Seq<char>,
    spare: C,
) -> Seq<C> {
    if place(entries, key) < entries.len() {
        cells
    } else if entries.len() == cap {
        cells.update(new_slot(entries, cap) as int, spare)
    } else {
        cells.push(spare)
    }
}

/// The transports that are kept, one cell for each identity, up to a number.
pub struct TransportCache<C> {
    slots: Slots,
    cells: Vec<C>,
}

impl<C> TransportCache<C> {
    /// The identities and their slots, the most recently asked for first.
    pub closed spec fn entries(&self) -> Seq<(Seq<char>, usize)> {
        self.slots.entries()
    }

    /// What each slot holds.
    pub closed spec fn cells(&self) -> Seq<C> {
        self.cells@
    }

    /// How many transports are kept at most.
    pub closed spec fn cap(&self) -> nat {
        self.slots.cap()
    }

    pub open spec fn wf(&self) -> bool {
        is_cache(self.entries(), self.cap()) && self.cells().len() == self.entries().len()
    }

    pub fn new(cap: usize) -> (r: TransportCache<C>)
        requires
            1 <= cap <= LARGEST_CACHE,
        ensures
            r.wf(),
            r.entries().len() == 0,
            r.cap() == cap,
    {
        TransportCache { slots: Slots::new(cap), cells: Vec::new() }
    }

    /// Asks for the cell of a server: the one that is kept for it, or `spare`,
    /// which is then kept. It is the same for all paths that name the server. In a
    /// full cache the least recently used identity makes room.
    pub fn get(&mut self, parsed: &ParsedPath, spare: C) -> (r: &C)
        requires
            old(self).wf(),
        ensures
            final(self).wf(),
            final(self).cap() == old(self).cap(),
            final(self).entries() == asked(old(self).entries(), old(self).cap(), parsed.hex@),
            final(self).cells() == cells_after(
                old(self).entries(),
                old(self).cells(),
                old(self).cap(),
                parsed.hex@,
                spare,
            ),
            *r == match cell_of(old(self).entries(), old(self).cells(), parsed.hex@) {
                Some(c) => c,
                None => spare,
            },
    {
        let found: Lookup = self.slots.find(parsed);
        proof {
            lemma_place(old(self).entries(), parsed.hex@);
        }
        if found.fresh {
            if found.slot < self.cells.len() {
                self.cells.set(found.slot, spare);
            } else {
                self.cells.push(spare);
            }
        }
        &self.cells[found.slot]
    }
}

/// Where a key stands in a list of entries.
pub proof fn lemma_place(entries: Seq<(Seq<char>, usize)>, key: Seq<char>)
    ensures
        0 <= place(entries, key) <= entries.len(),
        place(entries, key) < entries.len() ==> entries[place(entries, key)].0 == key,
        forall|j: int| 0 <= j < place(entries, key) ==> (#[trigger] entries[j]).0 != key,
    decreases entries.len(),
{
    if entries.len() > 0 && entries[0].0 != key {
        let rest = entries.skip(1);
        lemma_place(rest, key);
        assert forall|j: int| 0 <= j < place(entries, key) implies (#[trigger] entries[j]).0 != key by {
            if j > 0 {
                assert(entries[j] == rest[j - 1]);
            }
        }
        if place(rest, key) < rest.len() {
            assert(entries[place(entries, key)] == rest[place(rest, key)]);
        }
    }
}

/// A key stands where it is found first.
pub proof fn lemma_place_is(entries: Seq<(Seq<char>, usize)>, key: Seq<char>, at: int)
    requires
        0 <= at < entries.len(),
        entries[at].0 == key,
        forall|j: int| 0 <= j < at ==> (#[trigger] entries[j]).0 != key,
    ensures
        place(entries, key) == at,
{
    lemma_place(entries, key);
    let p = place(entries, key);
    if p < at {
        assert(entries[p].0 == key);
    }
    if p > at {
        assert(entries[at].0 != key);
    }
}

/// A cache stays one whatever is asked for.
proof fn lemma_asked_is_cache(entries: Seq<(Seq<char>, usize)>, cap: nat, key: Seq<char>)
    requires
        is_cache(entries, cap),
        cap <= usize::MAX,
    ensures
        is_cache(asked(entries, cap, key), cap),
{
    lemma_place(entries, key);
    let i = place(entries, key);
    let after = asked(entries, cap, key);
    if i < entries.len() {
        assert forall|a: int, b: int| 0 <= a < b < after.len() implies (#[trigger] after[a]).0 != (
        #[trigger] after[b]).0 && after[a].1 != after[b].1 by {
            let x = if a == 0 { i } else if a - 1 < i { a - 1 } else { a };
            let y = if b - 1 < i { b - 1 } else { b };
            assert(after[a] == entries[x]);
            assert(after[b] == entries[y]);
            assert(x != y);
            if x < y {
                assert(entries[x].0 != entries[y].0 && entries[x].1 != entries[y].1);
            } else {
                assert(entries[y].0 != entries[x].0 && entries[y].1 != entries[x].1);
            }
        }
        assert forall|a: int| 0 <= a < after.len() implies (#[trigger] after[a]).1 < after.len() by {
            let x = if a == 0 { i } else if a - 1 < i { a - 1 } else { a };
            assert(after[a] == entries[x]);
        }
    } else {
        let slot = new_slot(entries, cap);
        assert forall|a: int, b: int| 0 <= a < b < after.len() implies (#[trigger] after[a]).0 != (
        #[trigger] after[b]).0 && after[a].1 != after[b].1 by {
            assert(after[b] == entries[b - 1]);
            if a > 0 {
                assert(after[a] == entries[a - 1]);
            } else if entries.len() == cap {
                assert(entries[b - 1].1 != entries[entries.len() - 1].1);
            } else {
                assert(entries[b - 1].1 < entries.len());
            }
        }
        assert forall|a: int| 0 <= a < after.len() implies (#[trigger] after[a]).1 < after.len() by {
            if a > 0 {
                assert(after[a] == entries[a - 1]);
            } else if entries.len() == cap {
                assert(entries[entries.len() - 1].1 < entries.len());
            }
        }
    }
}

/// One transport for each identity: asking again gives the same slot, builds
/// nothing and changes nothing.
pub proof fn law_one_transport_per_identity(
    entries: Seq<(Seq<char>, usize)>,
    cap: nat,
    key: Seq<char>,
)
    requires
        is_cache(entries, cap),
        cap <= usize::MAX,
    ensures
        ({
            let after = asked(entries, cap, key);
            place(after, key) == 0 && asked(after, cap, key) == after
        }),
{
    lemma_place(entries, key);
    let after = asked(entries, cap, key);
    assert(after[0].0 == key);
    lemma_place_is(after, key, 0);
    assert(touched(after, 0) =~= after);
}

/// The entries after a row of identities has been asked for, each with a spare
/// cell.
pub open spec fn entries_after<C>(
    entries: Seq<(Seq<char>, usize)>,
    cap: nat,
    asks: Seq<(Seq<char>, C)>,
) -> Seq<(Seq<char>, usize)>
    decreases asks.len(),
{
    if asks.len() == 0 {
        entries
    } else {
        asked(entries_after(entries, cap, asks.drop_last()), cap, asks.last().0)
    }
}

/// What the slots hold after a row of identities has been asked for.
pub open spec fn all_cells_after<C>(
    entries: Seq<(Seq<char>, usize)>,
    cells: Seq<C>,
    cap: nat,
    asks: Seq<(Seq<char>, C)>,
) -> Seq<C>
    decreases asks.len(),
{
    if asks.len() == 0 {
        cells
    } else {
        cells_after(
            entries_after(entries, cap, asks.drop_last()),
            all_cells_after(entries, cells, cap, asks.drop_last()),
            cap,
            asks.last().0,
            asks.last().1,
        )
    }
}

proof fn lemma_cell_stays<C>(
    entries: Seq<(Seq<char>, usize)>,
    cells: Seq<C>,
    cap: nat,
    key: Seq<char>,
    other: Seq<char>,
    spare: C,
)
    requires
        is_cache(entries, cap),
        cap <= usize::MAX,
        cells.len() == entries.len(),
        place(entries, key) < entries.len(),
        place(asked(entries, cap, other), key) < asked(entries, cap, other).len(),
    ensures
        cell_of(
            asked(entries, cap, other),
            cells_after(entries, cells, cap, other, spare),
            key,
        ) == cell_of(entries, cells, key),
{
    let after = asked(entries, cap, other);
    let p = place(entries, key);
    let i = place(entries, other);
    lemma_place(entries, key);
    lemma_place(entries, other);
    lemma_place(after, key);
    if key == other {
        lemma_place_is(after, key, 0);
    } else {
        if i == entries.len() && p + 1 == cap {
            let q = place(after, key);
            assert(after[q].0 == key);
            assert(q > 0);
            assert(after[q] == entries[q - 1]);
            assert(entries[q - 1].0 != entries[p].0);
        }
        lemma_stays_cached(entries, cap, key, other);
        assert(entries[p].1 < entries.len());
        if i == entries.len() && entries.len() == cap {
            assert(entries[p].1 != entries[entries.len() - 1].1);
        }
    }
}

/// One cell for each identity: from the moment that it is kept, as long as it is
/// not dropped, all who ask for the identity are given the same cell, whoever else
/// is asked for in between.
pub proof fn law_one_cell_until_dropped<C>(
    entries: Seq<(Seq<char>, usize)>,
    cells: Seq<C>,
    cap: nat,
    key: Seq<char>,
    asks: Seq<(Seq<char>, C)>,
)
    requires
        is_cache(entries, cap),
        cap <= usize::MAX,
        cells.len() == entries.len(),
        forall|n: int|
            0 <= n <= asks.len() ==> place(
                #[trigger] entries_after(entries, cap, asks.take(n)),
                key,
            ) < entries_after(entries, cap, asks.take(n)).len(),
    ensures
        ({
            let later = entries_after(entries, cap, asks);
            let held = all_cells_after(entries, cells, cap, asks);
            &&& is_cache(later, cap)
            &&& held.len() == later.len()
            &&& cell_of(later, held, key) is Some
            &&& cell_of(later, held, key) == cell_of(entries, cells, key)
        }),
    decreases asks.len(),
{
    assert(asks.take(asks.len() as int) =~= asks);
    assert(asks.take(0) =~= Seq::empty());
    assert(entries_after(entries, cap, asks.take(0)) == entries);
    if asks.len() > 0 {
        let earlier = asks.drop_last();
        assert forall|n: int| 0 <= n <= earlier.len() implies place(
            #[trigger] entries_after(entries, cap, earlier.take(n)),
            key,
        ) < entries_after(entries, cap, earlier.take(n)).len() by {
            assert(earlier.take(n) =~= asks.take(n));
        }
        law_one_cell_until_dropped(entries, cells, cap, key, earlier);
        let before = entries_after(entries, cap, earlier);
        let held = all_cells_after(entries, cells, cap, earlier);
        lemma_cell_stays(before, held, cap, key, asks.last().0, asks.last().1);
        lemma_asked_is_cache(before, cap, asks.last().0);
        lemma_place(before, asks.last().0);
    }
}

/// Identities do not share transports.
pub proof fn law_identities_do_not_share(
    entries: Seq<(Seq<char>, usize)>,
    cap: nat,
    one: Seq<char>,
    other: Seq<char>,
)
    requires
        is_cache(entries, cap),
        one != other,
        place(entries, one) < entries.len(),
        place(entries, other) < entries.len(),
    ensures
        entries[place(entries, one)].1 != entries[place(entries, other)].1,
{
    lemma_place(entries, one);
    lemma_place(entries, other);
    let i = place(entries, one);
    let j = place(entries, other);
    if i < j {
        assert(entries[i].1 != entries[j].1);
    } else {
        assert(entries[j].1 != entries[i].1);
    }
}

/// The entries after a row of identities has been asked for.
pub open spec fn all_asked(
    entries: Seq<(Seq<char>, usize)>,
    cap: nat,
    keys: Seq<Seq<char>>,
) -> Seq<(Seq<char>, usize)>
    decreases keys.len(),
{
    if keys.len() == 0 {
        entries
    } else {
        asked(all_asked(entries, cap, keys.drop_last()), cap, keys.last())
    }
}

proof fn lemma_stays_cached(
    entries: Seq<(Seq<char>, usize)>,
    cap: nat,
    key: Seq<char>,
    other: Seq<char>,
)
    requires
        is_cache(entries, cap),
        cap <= usize::MAX,
        place(entries, key) < entries.len(),
        key != other,
        place(entries, other) == entries.len() ==> place(entries, key) + 1 < cap,
    ensures
        ({
            let after = asked(entries, cap, other);
            let p = place(entries, key);
            let q = place(after, key);
            &&& q < after.len()
            &&& after[q].1 == entries[p].1
            &&& forall|j: int|
                0 <= j < q ==> (#[trigger] after[j]).0 == other || exists|x: int|
                    0 <= x < p && #[trigger] entries[x] == after[j]
        }),
{
    lemma_place(entries, key);
    lemma_place(entries, other);
    let p = place(entries, key);
    let i = place(entries, other);
    let after = asked(entries, cap, other);
    let q = if i < p {
        p
    } else {
        p + 1
    };
    assert(after[q] == entries[p]);
    assert forall|j: int| 0 <= j < q implies (#[trigger] after[j]).0 != key && (after[j].0 == other
        || exists|x: int| 0 <= x < p && #[trigger] entries[x] == after[j]) by {
        if j > 0 {
            let x = if j - 1 < i { j - 1 } else { j };
            assert(after[j] == entries[x]);
            assert(entries[x].0 != key);
        }
    }
    lemma_place_is(after, key, q);
}

/// Entries before a place bear as many different keys.
proof fn lemma_distinct_before(
    entries: Seq<(Seq<char>, usize)>,
    p: int,
    other: Seq<char>,
    others: Seq<Seq<char>>,
)
    requires
        keys_distinct(entries),
        0 <= p < entries.len(),
        place(entries, other) == entries.len(),
        others.contains(other),
        forall|j: int| 0 <= j < p ==> others.contains((#[trigger] entries[j]).0),
    ensures
        p + 1 <= others.to_set().len(),
{
    lemma_place(entries, other);
    let keys = Seq::new(p as nat, |j: int| entries[j].0).push(other);
    assert forall|a: int, b: int| 0 <= a < keys.len() && 0 <= b < keys.len() && a != b implies keys[a]
        != keys[b] by {
        let x = if a < b { a } else { b };
        let y = if a < b { b } else { a };
        assert(entries[x].0 == keys[x]);
        if y < p {
            assert(entries[x].0 != entries[y].0);
        }
    }
    assert(keys.no_duplicates());
    keys.unique_seq_to_set();
    assert forall|k: Seq<char>| keys.to_set().contains(k) implies others.to_set().contains(k) by {
        let a = choose|a: int| 0 <= a < keys.len() && keys[a] == k;
        if a < p {
            assert(others.contains(entries[a].0));
        }
    }
    vstd::set_lib::lemma_len_subset(keys.to_set(), others.to_set());
}

/// Identities in use stay: after one has been asked for, fewer others than the
/// cache has room for can be asked for, in any order and however often, and its
/// transport is still there.
pub proof fn law_recent_identities_stay(
    entries: Seq<(Seq<char>, usize)>,
    cap: nat,
    key: Seq<char>,
    others: Seq<Seq<char>>,
)
    requires
        is_cache(entries, cap),
        cap <= usize::MAX,
        others.to_set().len() < cap,
        !others.contains(key),
    ensures
        ({
            let then = asked(entries, cap, key);
            let later = all_asked(then, cap, others);
            let p = place(later, key);
            &&& is_cache(later, cap)
            &&& p < later.len()
            &&& later[p].1 == then[0].1
            &&& forall|j: int| 0 <= j < p ==> others.contains((#[trigger] later[j]).0)
        }),
    decreases others.len(),
{
    let then = asked(entries, cap, key);
    lemma_place(entries, key);
    lemma_asked_is_cache(entries, cap, key);
    if others.len() == 0 {
        lemma_place_is(then, key, 0);
    } else {
        let earlier = others.drop_last();
        assert forall|k: Seq<char>| earlier.contains(k) implies others.contains(k) by {
            let i = choose|i: int| 0 <= i < earlier.len() && earlier[i] == k;
            assert(others[i] == k);
        }
        vstd::set_lib::lemma_len_subset(earlier.to_set(), others.to_set());
        law_recent_identities_stay(entries, cap, key, earlier);
        let before = all_asked(then, cap, earlier);
        let p = place(before, key);
        let other = others.last();
        assert(others.contains(other));
        lemma_place(before, key);
        lemma_place(before, other);
        if place(before, other) == before.len() {
            lemma_distinct_before(before, p, other, others);
        }
        lemma_stays_cached(before, cap, key, other);
        lemma_asked_is_cache(before, cap, other);
        let later = asked(before, cap, other);
        assert forall|j: int| 0 <= j < place(later, key) implies others.contains(
            (#[trigger] later[j]).0,
        ) by {
            if later[j].0 != other {
                let x = choose|x: int| 0 <= x < p && #[trigger] before[x] == later[j];
                assert(earlier.contains(before[x].0));
            }
        }
    }
}

/// The arguments of a call: the fields of an object; nothing else has any.
pub fn args(v: Json) -> (r: Vec<(String, Json)>)
    ensures
        fields_of(entries_view(r@)) == match v@ {
            JsonView::Object(fields) => fields,
            _ => Map::empty(),
        },
{
    broadcast use crate::json::lemma_object_view;

    match v {
        Json::Object(entries) => entries,
        _ => {
            let entries: Vec<(String, Json)> = Vec::new();
            assert(entries_view(entries@) =~= Seq::empty());
            entries
        },
    }
}

/// Whether two URLs lead to one relay: they have the same normal form, or are the
/// same where they have none.
pub open spec fn same_relay(a: Seq<char>, b: Seq<char>) -> bool {
    match (relay_url_of(a), relay_url_of(b)) {
        (Some(x), Some(y)) => x == y,
        (Some(x), None) => x == b,
        (None, Some(y)) => a == y,
        (None, None) => a == b,
    }
}

/// The relays that a path names are dialled, all of them and in order, or the
/// bridge's own choice where it names none; each as it is, but while the bridge's own
/// relay runs every URL of the bridge itself stands for that relay.
pub proof fn law_relays_to_dial(
    cfg: ShimConfig,
    parsed: ParsedPath,
    loopback: Option<&str>,
    r: Vec<String>,
    i: int,
)
    requires
        call_ensures(resolve_relay_urls, (&cfg, &parsed, loopback), r),
    ensures
        parsed.relay_hints@.len() > 0 ==> r@.len() == parsed.relay_hints@.len() && (0 <= i
            < r@.len() ==> is_dialled(
            parsed.relay_hints@[i]@,
            r@[i]@,
            texts(cfg.public_urls@),
            opt_str(loopback),
        )),
        parsed.relay_hints@.len() == 0 ==> r@.len() == cfg.relay_urls@.len() && (0 <= i < r@.len()
            ==> is_dialled(
            cfg.relay_urls@[i]@,
            r@[i]@,
            texts(cfg.public_urls@),
            opt_str(loopback),
        )),
{
    let own = texts(cfg.public_urls@);
    let candidates = candidates_of(cfg@, parsed@);
    assert(texts(r@).len() == r@.len());
    assert(texts(parsed.relay_hints@).len() == parsed.relay_hints@.len());
    assert(texts(cfg.relay_urls@).len() == cfg.relay_urls@.len());
    if 0 <= i < r@.len() {
        assert(texts(r@)[i] == r@[i]@);
        assert(norms_of(candidates)[i] == norm_of(candidates[i]));
        lemma_is_own(candidates[i], own);
    }
}

/// Whether `url` is what is dialled for a candidate: the bridge's own relay, where it
/// runs and the candidate is one of the bridge's URLs, and else the candidate itself.
pub open spec fn is_dialled(
    candidate: Seq<char>,
    url: Seq<char>,
    own: Seq<Seq<char>>,
    loopback: Option<Seq<char>>,
) -> bool {
    let is_own = exists|j: int| 0 <= j < own.len() && same_relay(candidate, #[trigger] own[j]);
    url == if loopback is Some && is_own {
        loopback->Some_0
    } else {
        candidate
    }
}

proof fn lemma_is_own(candidate: Seq<char>, own: Seq<Seq<char>>)
    ensures
        norms_of(own).contains(norm_of(candidate)) <==> exists|j: int|
            0 <= j < own.len() && same_relay(candidate, #[trigger] own[j]),
{
    if norms_of(own).contains(norm_of(candidate)) {
        let j = choose|j: int| 0 <= j < norms_of(own).len() && norms_of(own)[j] == norm_of(candidate);
        assert(norm_of(own[j]) == norm_of(candidate));
        assert(same_relay(candidate, own[j]));
    }
    if exists|j: int| 0 <= j < own.len() && same_relay(candidate, #[trigger] own[j]) {
        let j = choose|j: int| 0 <= j < own.len() && same_relay(candidate, #[trigger] own[j]);
        assert(norms_of(own)[j] == norm_of(candidate));
    }
}

/// Of a list of candidates those whose normal forms are the bridge's own are swapped
/// for its relay, and no others.
pub proof fn law_own_urls_are_swapped(
    candidates: Vec<String>,
    norms: Vec<String>,
    own: Vec<String>,
    loopback: Option<&str>,
    r: Vec<String>,
    i: int,
)
    requires
        norms@.len() == candidates@.len(),
        call_ensures(rewrite_own_urls, (&candidates, &norms, &own, loopback), r),
    ensures
        r@.len() == candidates@.len(),
        0 <= i < r@.len() ==> r@[i]@ == if loopback is Some && exists|j: int|
            0 <= j < own@.len() && (#[trigger] own@[j])@ == norms@[i]@ {
            loopback->Some_0@
        } else {
            candidates@[i]@
        },
{
    assert(texts(r@).len() == r@.len());
    if 0 <= i < r@.len() {
        assert(texts(r@)[i] == r@[i]@);
        assert(texts(candidates@)[i] == candidates@[i]@);
        assert(texts(norms@)[i] == norms@[i]@);
        if texts(own@).contains(norms@[i]@) {
            let j = choose|j: int| 0 <= j < texts(own@).len() && texts(own@)[j] == norms@[i]@;
            assert(own@[j]@ == norms@[i]@);
        }
        if exists|j: int| 0 <= j < own@.len() && (#[trigger] own@[j])@ == norms@[i]@ {
            let j = choose|j: int| 0 <= j < own@.len() && (#[trigger] own@[j])@ == norms@[i]@;
            assert(texts(own@)[j] == norms@[i]@);
        }
    }
}

/// A transport leads to the server that the path names, over the relays to dial, with
/// the bridge's settings. It needs no greeting and can stream.
pub proof fn law_transport_follows_the_settings(
    cfg: ShimConfig,
    parsed: ParsedPath,
    loopback: Option<&str>,
    relays: Vec<String>,
    r: ClientSetup,
)
    requires
        call_ensures(client_setup, (&cfg, &parsed, loopback), r),
        call_ensures(resolve_relay_urls, (&cfg, &parsed, loopback), relays),
    ensures
        r.server_pubkey@ == parsed.hex@,
        texts(r.relay_urls@) == texts(relays@),
        cfg.private_key is Some <==> r.private_key is Some,
        cfg.private_key matches Some(key) ==> r.private_key->Some_0@ == key@,
        r.encryption_mode == cfg.encryption_mode,
        r.gift_wrap_mode == cfg.gift_wrap_mode,
        r.timeout_secs == cfg.connect_timeout_secs,
        r.stateless,
        r.open_stream,
{
}

/// A transport that is kept is given to all who ask for its server, by whatever path,
/// and is then the most recently used; the others keep their order and their cells.
pub proof fn law_kept_transport_is_given<C>(
    cache: &mut TransportCache<C>,
    parsed: ParsedPath,
    spare: C,
    r: &C,
    i: int,
)
    requires
        old(cache).wf(),
        call_ensures(TransportCache::<C>::get, (cache, &parsed, spare), r),
        0 <= i < old(cache).entries().len(),
        old(cache).entries()[i].0 == parsed.hex@,
    ensures
        *r == old(cache).cells()[old(cache).entries()[i].1 as int],
        final(cache).wf(),
        final(cache).cap() == old(cache).cap(),
        final(cache).cells() == old(cache).cells(),
        final(cache).entries() == seq![old(cache).entries()[i]] + old(cache).entries().remove(i),
{
    lemma_kept_place(old(cache).entries(), parsed.hex@, i);
}

proof fn lemma_kept_place(entries: Seq<(Seq<char>, usize)>, key: Seq<char>, i: int)
    requires
        keys_distinct(entries),
        0 <= i < entries.len(),
        entries[i].0 == key,
    ensures
        place(entries, key) == i,
{
    assert forall|j: int| 0 <= j < i implies (#[trigger] entries[j]).0 != key by {
        assert(entries[j].0 != entries[i].0);
    }
    lemma_place_is(entries, key, i);
}

/// A server without a transport gets a new one, which is kept as the most recently
/// used. While there is room all others are kept too; in a full cache the least
/// recently used makes room, and no other.
pub proof fn law_new_transport_is_kept<C>(
    cache: &mut TransportCache<C>,
    parsed: ParsedPath,
    spare: C,
    r: &C,
)
    requires
        old(cache).wf(),
        call_ensures(TransportCache::<C>::get, (cache, &parsed, spare), r),
        forall|i: int|
            0 <= i < old(cache).entries().len() ==> (#[trigger] old(cache).entries()[i]).0
                != parsed.hex@,
    ensures
        *r == spare,
        final(cache).wf(),
        final(cache).cap() == old(cache).cap(),
        final(cache).entries()[0].0 == parsed.hex@,
        final(cache).cells()[final(cache).entries()[0].1 as int] == spare,
        old(cache).entries().len() < old(cache).cap() ==> final(cache).entries().skip(1) == old(
            cache).entries() && final(cache).cells() == old(cache).cells().push(spare),
        old(cache).entries().len() == old(cache).cap() ==> final(cache).entries().skip(1) == old(
            cache).entries().drop_last() && final(cache).cells() == old(cache).cells().update(
            old(cache).entries().last().1 as int,
            spare,
        ),
{
    let entries = old(cache).entries();
    lemma_place(entries, parsed.hex@);
    let after = final(cache).entries();
    assert(old(cache).cells.len() == entries.len());
    if entries.len() == old(cache).cap() {
        assert(after.skip(1) =~= entries.drop_last());
        assert(entries[entries.len() - 1].1 < entries.len());
    } else {
        assert(after.skip(1) =~= entries);
    }
}

/// Whoever asks for a server right after another is given the same transport,
/// whatever relays the two paths name.
pub proof fn law_asking_again_gives_the_same<C>(
    first: &mut TransportCache<C>,
    second: &mut TransportCache<C>,
    one: ParsedPath,
    other: ParsedPath,
    spare: C,
    unused: C,
    given: &C,
    again: &C,
)
    requires
        old(first).wf(),
        call_ensures(TransportCache::<C>::get, (first, &one, spare), given),
        call_ensures(TransportCache::<C>::get, (second, &other, unused), again),
        old(second).entries() == final(first).entries(),
        old(second).cells() == final(first).cells(),
        old(second).cap() == final(first).cap(),
        other.hex@ == one.hex@,
    ensures
        *again == *given,
        final(second).entries() == final(first).entries(),
        final(second).cells() == final(first).cells(),
{
    let entries = old(first).entries();
    let after = final(first).entries();
    assert(old(first).cells.len() == entries.len());
    lemma_place(entries, one.hex@);
    if place(entries, one.hex@) == entries.len() && entries.len() == old(first).cap() {
        assert(entries[entries.len() - 1].1 < entries.len());
    }
    lemma_place_is(after, one.hex@, 0);
    assert(touched(after, 0) =~= after);
}

/// A slot is found for every server: the one that it has, or a new one, or in a full
/// cache that of the least recently used.
pub proof fn law_every_server_has_a_slot(
    slots: &mut Slots,
    parsed: ParsedPath,
    r: Lookup,
    i: int,
)
    requires
        old(slots).wf(),
        old(slots).cap() <= usize::MAX,
        call_ensures(Slots::find, (slots, &parsed), r),
    ensures
        final(slots).wf(),
        final(slots).cap() == old(slots).cap(),
        final(slots).entries()[0] == (parsed.hex@, r.slot),
        r.fresh <==> forall|j: int|
            0 <= j < old(slots).entries().len() ==> (#[trigger] old(slots).entries()[j]).0
                != parsed.hex@,
        0 <= i < old(slots).entries().len() && old(slots).entries()[i].0 == parsed.hex@ ==> r.slot
            == old(slots).entries()[i].1 && final(slots).entries().skip(1) == old(
            slots).entries().remove(i),
        r.fresh && old(slots).entries().len() < old(slots).cap() ==> r.slot == old(
            slots).entries().len() && final(slots).entries().skip(1) == old(slots).entries(),
        r.fresh && old(slots).entries().len() == old(slots).cap() ==> r.slot == old(
            slots).entries().last().1 && final(slots).entries().skip(1) == old(
            slots).entries().drop_last(),
{
    let entries = old(slots).entries();
    let after = final(slots).entries();
    lemma_place(entries, parsed.hex@);
    let p = place(entries, parsed.hex@);
    if 0 <= i < entries.len() && entries[i].0 == parsed.hex@ {
        lemma_kept_place(entries, parsed.hex@, i);
        assert(after.skip(1) =~= entries.remove(i));
    }
    if p == entries.len() {
        if entries.len() == old(slots).cap() {
            assert(after.skip(1) =~= entries.drop_last());
        } else {
            assert(after.skip(1) =~= entries);
        }
    } else {
        assert(entries[p].0 == parsed.hex@);
    }
}

/// A cache starts empty, with the room that is asked for.
pub proof fn law_cache_starts_empty<C>(cap: usize, slots: Slots, cache: TransportCache<C>)
    requires
        call_ensures(Slots::new, (cap,), slots),
        call_ensures(TransportCache::<C>::new, (cap,), cache),
    ensures
        slots.wf() && cache.wf(),
        slots.entries().len() == 0 && cache.entries().len() == 0,
        slots.cap() == cap && cache.cap() == cap,
{
}

/// The arguments of a call are the fields of an object, all of them.
pub proof fn law_arguments_are_the_fields(v: Json, r: Vec<(String, Json)>)
    requires
        call_ensures(args, (v,), r),
    ensures
        v@ matches JsonView::Object(fields) ==> fields_of(entries_view(r@)) == fields,
        !(v@ is Object) ==> fields_of(entries_view(r@)) == Map::<Seq<char>, JsonView>::empty(),
{
}

} // verus!
