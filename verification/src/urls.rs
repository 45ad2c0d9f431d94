//! Lists of relay URLs and the HTTP addresses that go with them.

use vstd::prelude::*;

use crate::env::{opt_string, opt_string_of, Env};
use crate::text::{
    lemma_find_is, lemma_trim_idempotent, split_char, split_of, strip_prefix, strip_prefix_of, texts,
    trim, trim_of,
};

verus! {

/// The pieces between the commas, without white space around them, that are
/// not empty.
pub open spec fn url_list_of(raw: Seq<char>) -> Seq<Seq<char>> {
    split_of(raw, ',').map_values(|piece: Seq<char>| trim_of(piece)).filter(
        |url: Seq<char>| url.len() > 0,
    )
}

/// The pieces between the commas of `raw` that are not blank.
pub fn url_list(raw: &str) -> (r: Vec<String>)
    ensures
        texts(r@) == url_list_of(raw@),
{
    let pieces: Vec<String> = split_char(raw, ',');
    let ghost all = split_of(raw@, ',').map_values(|piece: Seq<char>| trim_of(piece));
    let ghost kept = |url: Seq<char>| url.len() > 0;
    let mut out: Vec<String> = Vec::new();
    let mut i: usize = 0;
    assert(all.take(0).filter(kept) =~= Seq::empty()) by {
        reveal(Seq::filter);
    }
    while i < pieces.len()
        invariant
            i <= pieces@.len(),
            kept == (|url: Seq<char>| url.len() > 0),
            texts(pieces@) == split_of(raw@, ','),
            all == split_of(raw@, ',').map_values(|piece: Seq<char>| trim_of(piece)),
            texts(out@) == all.take(i as int).filter(kept),
        decreases pieces@.len() - i,
    {
        let url: &str = trim(pieces[i].as_str());
        proof {
            assert(texts(pieces@)[i as int] == pieces@[i as int]@);
            assert(all[i as int] == url@);
            assert(all.take(i + 1).drop_last() =~= all.take(i as int));
            reveal(Seq::filter);
        }
        if !url.is_empty() {
            let ghost before = out@;
            let piece: String = url.to_owned();
            out.push(piece);
            assert(texts(out@) =~= texts(before).push(url@));
        }
        i += 1;
    }
    assert(all.take(i as int) =~= all);
    out
}

/// The URLs that a variable lists, or `default` if it lists none.
pub open spec fn urls_or(
    env: Map<Seq<char>, Seq<char>>,
    name: Seq<char>,
    default: Seq<Seq<char>>,
) -> Seq<Seq<char>> {
    match opt_string_of(env, name) {
        Some(raw) => if url_list_of(raw).len() == 0 {
            default
        } else {
            url_list_of(raw)
        },
        None => default,
    }
}

/// The URLs that a variable lists, or `default` if it lists none.
pub fn read_urls(env: &Env, name: &str, default: Vec<String>) -> (r: Vec<String>)
    ensures
        texts(r@) == urls_or(env@, name@, texts(default@)),
{
    match opt_string(env, name) {
        Some(raw) => {
            let urls: Vec<String> = url_list(raw.as_str());
            assert(texts(urls@).len() == urls@.len());
            if urls.len() == 0 {
                default
            } else {
                urls
            }
        },
        None => default,
    }
}

/// No URL that is read is empty or has white space around it.
pub proof fn law_listed_urls_are_trimmed(raw: Seq<char>, i: int)
    requires
        0 <= i < url_list_of(raw).len(),
    ensures
        url_list_of(raw)[i].len() > 0,
        trim_of(url_list_of(raw)[i]) == url_list_of(raw)[i],
{
    let all = split_of(raw, ',').map_values(|piece: Seq<char>| trim_of(piece));
    let kept = |url: Seq<char>| url.len() > 0;
    let url = all.filter(kept)[i];
    all.lemma_filter_pred(kept, i);
    all.lemma_filter_contains_rev(kept, url);
    let j = all.index_of(url);
    assert(all[j] == trim_of(split_of(raw, ',')[j]));
    lemma_trim_idempotent(split_of(raw, ',')[j]);
}

/// `url` with a WebSocket scheme swapped for its HTTP one. A URL with an HTTP
/// scheme stays as it is, and one with any other start gets `https://` before it.
pub open spec fn https_url_of(url: Seq<char>) -> Seq<char> {
    match strip_prefix_of(url, "wss://"@) {
        Some(rest) => "https://"@ + rest,
        None => match strip_prefix_of(url, "ws://"@) {
            Some(rest) => "http://"@ + rest,
            None => if "https://"@.is_prefix_of(url) || "http://"@.is_prefix_of(url) {
                url
            } else {
                "https://"@ + url
            },
        },
    }
}

/// Swaps a WebSocket scheme for its HTTP one.
pub fn https_url(url: &str) -> (r: String)
    ensures
        r@ == https_url_of(url@),
{
    if let Some(rest) = strip_prefix(url, "wss://") {
        "https://".to_owned().concat(rest)
    } else if let Some(rest) = strip_prefix(url, "ws://") {
        "http://".to_owned().concat(rest)
    } else if strip_prefix(url, "https://").is_some() || strip_prefix(url, "http://").is_some() {
        url.to_owned()
    } else {
        "https://".to_owned().concat(url)
    }
}

/// Every display address has an HTTP scheme, and swapping twice is swapping once.
pub proof fn law_https_url(url: Seq<char>)
    ensures
        "https://"@.is_prefix_of(https_url_of(url)) || "http://"@.is_prefix_of(https_url_of(url)),
        https_url_of(https_url_of(url)) == https_url_of(url),
{
    reveal_strlit("https://");
    reveal_strlit("http://");
    reveal_strlit("wss://");
    reveal_strlit("ws://");
    let out = https_url_of(url);
    if "https://"@.is_prefix_of(url) {
        assert(url.subrange(0, 8)[0] == 'h');
    } else if "http://"@.is_prefix_of(url) {
        assert(url.subrange(0, 7)[0] == 'h');
    }
    assert(out[0] == 'h');
    if strip_prefix_of(out, "wss://"@) is Some {
        assert(out.subrange(0, 6)[0] == 'w');
    }
    if strip_prefix_of(out, "ws://"@) is Some {
        assert(out.subrange(0, 5)[0] == 'w');
    }
    assert("wss://"@[0] == 'w');
    assert("ws://"@[0] == 'w');
}

/// A list is its first entry and the list of the rest: an entry is what stands
/// before the first comma, without white space round it, and a blank one is left out.
pub proof fn law_lists_go_on(
    raw: &str,
    head: &str,
    rest: &str,
    trimmed: &str,
    r: Vec<String>,
    more: Vec<String>,
)
    requires
        call_ensures(url_list, (raw,), r),
        call_ensures(url_list, (rest,), more),
        call_ensures(trim, (head,), trimmed),
        raw@ == head@ + seq![','] + rest@,
        !head@.contains(','),
    ensures
        texts(r@) == if trimmed@.len() == 0 {
            texts(more@)
        } else {
            seq![trimmed@] + texts(more@)
        },
{
    let at = head@.len() as int;
    assert forall|i: int| 0 <= i < at implies raw@[i] != ',' by {
        assert(raw@[i] == head@[i]);
    }
    lemma_find_is(raw@, ',', at);
    assert(raw@.take(at) =~= head@);
    assert(raw@.skip(at + 1) =~= rest@);
    let trimming = |piece: Seq<char>| trim_of(piece);
    let kept = |url: Seq<char>| url.len() > 0;
    let others = split_of(rest@, ',').map_values(trimming);
    assert(split_of(raw@, ',').map_values(trimming) =~= seq![trimmed@] + others);
    Seq::filter_distributes_over_add(seq![trimmed@], others, kept);
    lemma_filter_one(trimmed@);
    assert(texts(r@) =~= if trimmed@.len() == 0 {
        texts(more@)
    } else {
        seq![trimmed@] + texts(more@)
    });
}

proof fn lemma_filter_one(url: Seq<char>)
    ensures
        seq![url].filter(|u: Seq<char>| u.len() > 0) == if url.len() == 0 {
            Seq::<Seq<char>>::empty()
        } else {
            seq![url]
        },
{
    reveal(Seq::filter);
    let kept = |u: Seq<char>| u.len() > 0;
    assert(seq![url].drop_last() =~= Seq::empty());
    assert(seq![url].drop_last().filter(kept) =~= Seq::empty());
    assert(seq![url].filter(kept) =~= if url.len() == 0 {
        Seq::<Seq<char>>::empty()
    } else {
        seq![url]
    });
}

/// A text without a comma lists itself, without white space round it, or nothing if
/// it is blank.
pub proof fn law_list_of_one(raw: &str, trimmed: &str, r: Vec<String>)
    requires
        call_ensures(url_list, (raw,), r),
        call_ensures(trim, (raw,), trimmed),
        !raw@.contains(','),
    ensures
        texts(r@) == if trimmed@.len() == 0 {
            Seq::<Seq<char>>::empty()
        } else {
            seq![trimmed@]
        },
{
    assert forall|i: int| 0 <= i < raw@.len() implies raw@[i] != ',' by {
        assert(raw@.contains(raw@[i]));
    }
    lemma_find_is(raw@, ',', raw@.len() as int);
    let trimming = |piece: Seq<char>| trim_of(piece);
    assert(split_of(raw@, ',').map_values(trimming) =~= seq![trimmed@]);
    lemma_filter_one(trimmed@);
}

/// The URLs that a variable lists count, all of them; the default counts where it
/// lists none.
pub proof fn law_listed_urls_count(
    env: Env,
    name: &str,
    default: Vec<String>,
    raw: Option<String>,
    text: &str,
    listed: Vec<String>,
    r: Vec<String>,
)
    requires
        call_ensures(read_urls, (&env, name, default), r),
        call_ensures(opt_string, (&env, name), raw),
        raw matches Some(s) ==> text@ == s@ && call_ensures(url_list, (text,), listed),
    ensures
        raw is None ==> texts(r@) == texts(default@),
        raw is Some ==> texts(r@) == if listed@.len() == 0 {
            texts(default@)
        } else {
            texts(listed@)
        },
{
    assert(texts(listed@).len() == listed@.len());
}

/// What follows the scheme of a URL stays, and the scheme becomes the HTTP one that
/// is as secure; a URL without a known scheme gets the secure one.
pub proof fn law_schemes_are_swapped(url: &str, rest: Seq<char>, r: String)
    requires
        call_ensures(https_url, (url,), r),
    ensures
        url@ == "wss://"@ + rest ==> r@ == "https://"@ + rest,
        url@ == "ws://"@ + rest ==> r@ == "http://"@ + rest,
        url@ == "https://"@ + rest || url@ == "http://"@ + rest ==> r@ == url@,
        !"wss://"@.is_prefix_of(url@) && !"ws://"@.is_prefix_of(url@) && !"https://"@.is_prefix_of(
            url@,
        ) && !"http://"@.is_prefix_of(url@) ==> r@ == "https://"@ + url@,
{
    reveal_strlit("https://");
    reveal_strlit("http://");
    reveal_strlit("wss://");
    reveal_strlit("ws://");
    let wss = "wss://"@;
    let ws = "ws://"@;
    let https = "https://"@;
    let http = "http://"@;
    assert(wss[0] == 'w' && ws[0] == 'w' && https[0] == 'h' && http[0] == 'h');
    if url@ == wss + rest {
        assert(wss.is_prefix_of(url@)) by {
            assert(url@.subrange(0, 6) =~= wss);
        }
        assert(url@.skip(6) =~= rest);
    }
    if url@ == ws + rest {
        assert(ws.is_prefix_of(url@)) by {
            assert(url@.subrange(0, 5) =~= ws);
        }
        assert(!wss.is_prefix_of(url@)) by {
            if wss.is_prefix_of(url@) {
                assert(url@.subrange(0, 6)[2] == wss[2]);
                assert(url@[2] == ws[2]);
            }
        }
        assert(url@.skip(5) =~= rest);
    }
    if url@ == https + rest || url@ == http + rest {
        assert(url@[0] == 'h');
        if wss.is_prefix_of(url@) {
            assert(url@.subrange(0, 6)[0] == 'w');
        }
        if ws.is_prefix_of(url@) {
            assert(url@.subrange(0, 5)[0] == 'w');
        }
        if url@ == https + rest {
            assert(url@.subrange(0, 8) =~= https);
            assert(https.is_prefix_of(url@));
        } else {
            assert(url@.subrange(0, 7) =~= http);
            assert(http.is_prefix_of(url@));
        }
    }
}

} // verus!
