//! A bounded cache on `lru::LruCache`, from texts to numbers.

use vstd::prelude::*;

verus! {

/// `lru::LruCache`, carried whole.
#[verifier::external_type_specification]
#[verifier::external_body]
#[verifier::reject_recursive_types(K)]
#[verifier::reject_recursive_types(V)]
#[verifier::reject_recursive_types(S)]
pub struct ExLruCache<K, V, S>(lru::LruCache<K, V, S>);

/// `lru::DefaultHasher`, which a cache carries.
#[verifier::external_type_specification]
#[verifier::external_body]
pub struct ExDefaultHasher(lru::DefaultHasher);

/// What a cache holds, the most recently used entry first.
pub uninterp spec fn cached(cache: lru::LruCache<String, usize>) -> Seq<(Seq<char>, usize)>;

/// How many entries a cache has room for.
pub uninterp spec fn room(cache: lru::LruCache<String, usize>) -> nat;

/// The largest cache that can be asked for on every machine. A cache reserves its
/// room at once, in a table whose size is a power of two and at least 8/7 of the
/// room. For a larger room the table would not fit the addresses of a 32-bit
/// machine, and asking for it would panic.
pub const LARGEST_CACHE: usize = 117_440_512;

/// Where the entry of `key` stands, or the number of entries if it has none.
pub open spec fn place(entries: Seq<(Seq<char>, usize)>, key: Seq<char>) -> int
    decreases entries.len(),
{
    if entries.len() == 0 || entries[0].0 == key {
        0
    } else {
        1 + place(entries.skip(1), key)
    }
}

/// The entries with the one at `i` moved to the front.
pub open spec fn touched(entries: Seq<(Seq<char>, usize)>, i: int) -> Seq<(Seq<char>, usize)> {
    seq![entries[i]] + entries.remove(i)
}

/// `lru::LruCache::new`: an empty cache with room for `cap` entries.
#[verifier::external_body]
pub(crate) fn new_cache(cap: usize) -> (r: lru::LruCache<String, usize>)
    requires
        1 <= cap <= LARGEST_CACHE,
    ensures
        cached(r).len() == 0,
        room(r) == cap,
{
    lru::LruCache::new(std::num::NonZeroUsize::new(cap).unwrap())
}

/// `lru::LruCache::get`: the value of a key, whose entry becomes the most recently
/// used; the others keep their order. A key without an entry changes nothing.
#[verifier::external_body]
pub(crate) fn cache_get(cache: &mut lru::LruCache<String, usize>, key: &str) -> (r: Option<usize>)
    ensures
        room(*final(cache)) == room(*old(cache)),
        ({
            let entries = cached(*old(cache));
            let i = place(entries, key@);
            if i < entries.len() {
                r == Some(entries[i].1) && cached(*final(cache)) == touched(entries, i)
            } else {
                r is None && cached(*final(cache)) == entries
            }
        }),
{
    cache.get(key).copied()
}

/// `lru::LruCache::put`: the value of a key is set, and its entry becomes the most
/// recently used. A new key in a full cache takes the place of the least recently
/// used entry. The result is the value that the key had.
#[verifier::external_body]
pub(crate) fn cache_put(cache: &mut lru::LruCache<String, usize>, key: String, value: usize) -> (r:
    Option<usize>)
    ensures
        room(*final(cache)) == room(*old(cache)),
        ({
            let entries = cached(*old(cache));
            let i = place(entries, key@);
            if i < entries.len() {
                r == Some(entries[i].1) && cached(*final(cache)) == seq![(key@, value)]
                    + entries.remove(i)
            } else if entries.len() == room(*old(cache)) {
                r is None && cached(*final(cache)) == seq![(key@, value)] + entries.drop_last()
            } else {
                r is None && cached(*final(cache)) == seq![(key@, value)] + entries
            }
        }),
{
    cache.put(key, value)
}

/// `lru::LruCache::peek_lru`: the value of the least recently used entry, if there
/// is one.
#[verifier::external_body]
pub(crate) fn cache_oldest(cache: &lru::LruCache<String, usize>) -> (r: Option<usize>)
    ensures
        r == if cached(*cache).len() == 0 {
            None
        } else {
            Some(cached(*cache).last().1)
        },
{
    cache.peek_lru().map(|e| *e.1)
}

/// `lru::LruCache::len`: the number of entries.
#[verifier::external_body]
pub(crate) fn cache_len(cache: &lru::LruCache<String, usize>) -> (r: usize)
    ensures
        r == cached(*cache).len(),
{
    cache.len()
}

/// `lru::LruCache::cap`: the number of entries that there is room for.
#[verifier::external_body]
pub(crate) fn cache_room(cache: &lru::LruCache<String, usize>) -> (r: usize)
    ensures
        r == room(*cache),
{
    cache.cap().get()
}

} // verus!
