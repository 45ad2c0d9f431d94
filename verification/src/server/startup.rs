//! What the server does before it serves: choosing the upstream relay, setting
//! up the transport and greeting the user.

use vstd::prelude::*;

use crate::modes::{EncryptionMode, GiftWrapMode};
use crate::relay::{backend_for, backend_of, Backend};
use crate::server::config::{ServerConfig, ServerConfigView};
use crate::text::{copied, joined, opt_text, texts};
use crate::urls::{https_url, https_url_of};

verus! {

/// The relay to proxy.
#[derive(Debug, PartialEq)]
pub enum Upstream {
    /// A relay of the server's own, to be started first.
    Bundled { backend: Backend, db_path: String, port: u16 },
    /// A relay elsewhere.
    External(String),
}

pub enum UpstreamView {
    Bundled { backend: Backend, db_path: Seq<char>, port: u16 },
    External(Seq<char>),
}

impl View for Upstream {
    type V = UpstreamView;

    open spec fn view(&self) -> UpstreamView {
        match self {
            Upstream::Bundled { backend, db_path, port } => UpstreamView::Bundled {
                backend: *backend,
                db_path: db_path@,
                port: *port,
            },
            Upstream::External(url) => UpstreamView::External(url@),
        }
    }
}

/// The relay that the settings choose.
pub open spec fn upstream_of(cfg: ServerConfigView) -> UpstreamView {
    match cfg.proxy_relay_url {
        Some(url) => UpstreamView::External(url),
        None => UpstreamView::Bundled {
            backend: backend_of(cfg.bundled.backend),
            db_path: cfg.bundled.db_path,
            port: cfg.bundled.port,
        },
    }
}

/// The relay that the settings choose.
pub fn choose_upstream(cfg: &ServerConfig) -> (r: Upstream)
    ensures
        r@ == upstream_of(cfg@),
{
    match &cfg.proxy_relay_url {
        Some(url) => Upstream::External(url.as_str().to_owned()),
        None => Upstream::Bundled {
            backend: backend_for(cfg.bundled.backend.as_str()),
            db_path: cfg.bundled.db_path.as_str().to_owned(),
            port: cfg.bundled.port,
        },
    }
}

/// How long a stream may stay silent, and how long a probe of it may take, in
/// milliseconds. A subscription can be without events for long.
pub const KEEPALIVE_MS: u64 = 60_000;

/// How the server's ContextVM transport is set up.
#[derive(Debug, PartialEq)]
pub struct TransportSetup {
    pub relay_urls: Vec<String>,
    pub announced: bool,
    pub encryption_mode: EncryptionMode,
    pub gift_wrap_mode: GiftWrapMode,
    pub name: String,
    pub about: String,
    pub open_stream: bool,
    pub idle_timeout_ms: u64,
    pub probe_timeout_ms: u64,
}

/// The transport that the settings ask for. Streams are always on: they carry
/// the subscriptions.
pub fn build_transport_config(cfg: &ServerConfig) -> (r: TransportSetup)
    ensures
        texts(r.relay_urls@) == cfg@.cvm_relay_urls,
        r.announced == cfg.is_announced,
        r.encryption_mode == EncryptionMode::Optional,
        r.gift_wrap_mode == cfg.gift_wrap_mode,
        r.name@ == cfg.server_name@,
        r.about@ == match cfg@.server_about {
            Some(about) => about,
            None => ""@,
        },
        r.open_stream,
        r.idle_timeout_ms == KEEPALIVE_MS,
        r.probe_timeout_ms == KEEPALIVE_MS,
{
    let about: String = match &cfg.server_about {
        Some(about) => about.as_str().to_owned(),
        None => "".to_owned(),
    };
    TransportSetup {
        relay_urls: copied(&cfg.cvm_relay_urls),
        announced: cfg.is_announced,
        encryption_mode: EncryptionMode::Optional,
        gift_wrap_mode: cfg.gift_wrap_mode,
        name: cfg.server_name.as_str().to_owned(),
        about,
        open_stream: true,
        idle_timeout_ms: KEEPALIVE_MS,
        probe_timeout_ms: KEEPALIVE_MS,
    }
}

/// `n` times the character `c`.
pub open spec fn row_of(c: char, n: nat) -> Seq<char> {
    Seq::new(n, |i: int| c)
}

fn row(c: char, n: usize) -> (r: String)
    ensures
        r@ == row_of(c, n as nat),
{
    let mut out: String = String::new();
    for i in 0..n
        invariant
            out@ =~= row_of(c, i as nat),
    {
        out.push(c);
    }
    out
}

/// One line for each URL.
pub open spec fn bullets_of(urls: Seq<Seq<char>>) -> Seq<char>
    decreases urls.len(),
{
    if urls.len() == 0 {
        Seq::empty()
    } else if urls.len() == 1 {
        "     • "@ + urls[0]
    } else {
        bullets_of(urls.drop_last()) + "\n"@ + "     • "@ + urls.last()
    }
}

fn bullets(urls: &Vec<String>) -> (r: String)
    ensures
        r@ == bullets_of(texts(urls@)),
{
    let size: usize = urls.len();
    let ghost all = texts(urls@);
    let mut out: String = String::new();
    assert(all.take(0) =~= Seq::empty());
    for i in 0..size
        invariant
            size == urls@.len(),
            all == texts(urls@),
            out@ == bullets_of(all.take(i as int)),
    {
        assert(all.take(i + 1).drop_last() =~= all.take(i as int));
        assert(all.take(i + 1).last() == urls@[i as int]@);
        if i > 0 {
            out.append("\n");
        }
        out.append("     • ");
        out.append(urls[i].as_str());
        assert(out@ =~= bullets_of(all.take(i + 1)));
    }
    assert(all.take(size as int) =~= all);
    out
}

/// The page of a server at a bridge: the first ContextVM relay's host, and the
/// server's key.
pub open spec fn page_of(cfg: ServerConfigView, server_pubkey: Seq<char>) -> Option<Seq<char>> {
    if cfg.cvm_relay_urls.len() > 0 {
        Some(https_url_of(cfg.cvm_relay_urls[0]) + "/"@ + server_pubkey)
    } else {
        None
    }
}

/// The page of a server at a bridge.
pub fn page_url(cfg: &ServerConfig, server_pubkey: &str) -> (r: Option<String>)
    ensures
        opt_text(r) == page_of(cfg@, server_pubkey@),
{
    assert(texts(cfg.cvm_relay_urls@).len() == cfg.cvm_relay_urls@.len());
    if cfg.cvm_relay_urls.len() > 0 {
        assert(texts(cfg.cvm_relay_urls@)[0] == cfg.cvm_relay_urls@[0]@);
        Some(https_url(cfg.cvm_relay_urls[0].as_str()).concat("/").concat(server_pubkey))
    } else {
        None
    }
}

pub open spec fn banner_of(
    server_pubkey: Seq<char>,
    cfg: ServerConfigView,
    upstream_url: Seq<char>,
) -> Seq<char> {
    let rule = "  "@ + row_of('═', 64) + "\n"@;
    let page = match page_of(cfg, server_pubkey) {
        Some(url) => "   page            "@ + url + "\n"@,
        None => ""@,
    };
    "\n"@ + rule + "   outlay — Nostr relay over ContextVM\n"@ + rule + "\n   server pubkey   "@
        + server_pubkey + "\n"@ + page + "\n   CVM relays (listening)\n"@ + bullets_of(
        cfg.cvm_relay_urls,
    ) + "\n\n   upstream relay (proxied)\n     • "@ + upstream_url + "\n\n"@
}

/// What the user sees at the start.
pub fn banner(server_pubkey: &str, cfg: &ServerConfig, upstream_url: &str) -> (r: String)
    ensures
        r@ == banner_of(server_pubkey@, cfg@, upstream_url@),
{
    let rule: String = "  ".to_owned().concat(row('═', 64).as_str()).concat("\n");
    let page: String = match page_url(cfg, server_pubkey) {
        Some(url) => "   page            ".to_owned().concat(url.as_str()).concat("\n"),
        None => "".to_owned(),
    };
    "\n".to_owned().concat(rule.as_str()).concat("   outlay — Nostr relay over ContextVM\n").concat(
        rule.as_str(),
    ).concat("\n   server pubkey   ").concat(server_pubkey).concat("\n").concat(
        page.as_str(),
    ).concat("\n   CVM relays (listening)\n").concat(bullets(&cfg.cvm_relay_urls).as_str()).concat(
        "\n\n   upstream relay (proxied)\n     • ",
    ).concat(upstream_url).concat("\n\n")
}

/// The relay that is named is the one proxied; only where none is named does the
/// server start its own.
pub proof fn law_named_relay_is_proxied(cfg: ServerConfigView)
    ensures
        upstream_of(cfg) is External <==> cfg.proxy_relay_url is Some,
        cfg.proxy_relay_url matches Some(url) ==> upstream_of(cfg) == UpstreamView::External(url),
{
}

/// The relay that is named is proxied; without one the server's own, in memory where
/// the settings say so and else in the file and on the port that they name.
pub proof fn law_upstream_follows_the_settings(cfg: ServerConfig, r: Upstream)
    requires
        call_ensures(choose_upstream, (&cfg,), r),
    ensures
        cfg.proxy_relay_url matches Some(url) ==> (r matches Upstream::External(at) && at@ == url@),
        cfg.proxy_relay_url is None ==> (r matches Upstream::Bundled { backend, db_path, port } && (
        backend == Backend::Memory <==> cfg.bundled.backend@ == "memory"@) && db_path@
            == cfg.bundled.db_path@ && port == cfg.bundled.port),
{
}

/// The transport listens on all the relays that are set, under the name that is set,
/// and is announced where that is set. It always streams, may encrypt, and bears
/// silence for a minute.
pub proof fn law_transport_follows_the_settings(cfg: ServerConfig, r: TransportSetup)
    requires
        call_ensures(build_transport_config, (&cfg,), r),
    ensures
        r.relay_urls@.len() == cfg.cvm_relay_urls@.len(),
        forall|i: int|
            0 <= i < r.relay_urls@.len() ==> (#[trigger] r.relay_urls@[i])@
                == cfg.cvm_relay_urls@[i]@,
        r.announced == cfg.is_announced,
        r.gift_wrap_mode == cfg.gift_wrap_mode,
        r.encryption_mode == EncryptionMode::Optional,
        r.name@ == cfg.server_name@,
        cfg.server_about matches Some(about) ==> r.about@ == about@,
        cfg.server_about is None ==> r.about@ == ""@,
        r.open_stream,
        r.idle_timeout_ms == 60000,
        r.probe_timeout_ms == 60000,
{
    assert(texts(r.relay_urls@).len() == texts(cfg.cvm_relay_urls@).len());
    assert forall|i: int| 0 <= i < r.relay_urls@.len() implies (#[trigger] r.relay_urls@[i])@
        == cfg.cvm_relay_urls@[i]@ by {
        assert(texts(r.relay_urls@)[i] == texts(cfg.cvm_relay_urls@)[i]);
    }
}

/// The page of a server is its key under the web address of the first relay.
pub proof fn law_page_is_under_the_first_relay(
    cfg: ServerConfig,
    server_pubkey: &str,
    first: &str,
    web: String,
    r: Option<String>,
)
    requires
        call_ensures(page_url, (&cfg, server_pubkey), r),
        cfg.cvm_relay_urls@.len() > 0 ==> first@ == cfg.cvm_relay_urls@[0]@ && call_ensures(
            https_url,
            (first,),
            web,
        ),
    ensures
        cfg.cvm_relay_urls@.len() == 0 ==> r is None,
        cfg.cvm_relay_urls@.len() > 0 ==> (r matches Some(url) && url@ == web@ + "/"@
            + server_pubkey@),
{
    assert(texts(cfg.cvm_relay_urls@).len() == cfg.cvm_relay_urls@.len());
}

/// The greeting shows the server's key, its page, every relay that the server listens
/// on, one to a line and in order, and the relay that it proxies.
pub proof fn law_banner_shows_what_matters(
    server_pubkey: &str,
    cfg: ServerConfig,
    upstream_url: &str,
    page: Option<String>,
    r: String,
)
    requires
        call_ensures(banner, (server_pubkey, &cfg, upstream_url), r),
        call_ensures(page_url, (&cfg, server_pubkey), page),
    ensures
        ({
            let rule = "  "@ + Seq::new(64, |i: int| '═') + "\n"@;
            let shown = match page {
                Some(url) => "   page            "@ + url@ + "\n"@,
                None => ""@,
            };
            let listed = Seq::new(
                cfg.cvm_relay_urls@.len(),
                |i: int| "     • "@ + cfg.cvm_relay_urls@[i]@,
            );
            r@ == "\n"@ + rule + "   outlay — Nostr relay over ContextVM\n"@ + rule
                + "\n   server pubkey   "@ + server_pubkey@ + "\n"@ + shown
                + "\n   CVM relays (listening)\n"@ + joined(listed, '\n')
                + "\n\n   upstream relay (proxied)\n     • "@ + upstream_url@ + "\n\n"@
        }),
{
    let urls = texts(cfg.cvm_relay_urls@);
    let listed = Seq::new(
        cfg.cvm_relay_urls@.len(),
        |i: int| "     • "@ + cfg.cvm_relay_urls@[i]@,
    );
    assert(listed =~= Seq::new(urls.len(), |i: int| "     • "@ + urls[i]));
    lemma_bullets_are_lines(urls);
    assert(row_of('═', 64) =~= Seq::new(64, |i: int| '═'));
}

proof fn lemma_bullets_are_lines(urls: Seq<Seq<char>>)
    ensures
        bullets_of(urls) == joined(Seq::new(urls.len(), |i: int| "     • "@ + urls[i]), '\n'),
    decreases urls.len(),
{
    let listed = Seq::new(urls.len(), |i: int| "     • "@ + urls[i]);
    if urls.len() > 1 {
        let earlier = urls.drop_last();
        lemma_bullets_are_lines(earlier);
        let before = Seq::new(earlier.len(), |i: int| "     • "@ + earlier[i]);
        assert(listed =~= before.push("     • "@ + urls.last()));
        lemma_joined_push(before, '\n', "     • "@ + urls.last());
        reveal_strlit("\n");
        assert("\n"@ =~= seq!['\n']);
        assert(bullets_of(urls) =~= joined(listed, '\n'));
    }
}

proof fn lemma_joined_push(pieces: Seq<Seq<char>>, c: char, last: Seq<char>)
    requires
        pieces.len() > 0,
    ensures
        joined(pieces.push(last), c) == joined(pieces, c) + seq![c] + last,
    decreases pieces.len(),
{
    let more = pieces.push(last);
    if pieces.len() == 1 {
        assert(more.skip(1) =~= seq![last]);
        assert(joined(more.skip(1), c) == last);
    } else {
        lemma_joined_push(pieces.skip(1), c, last);
        assert(more.skip(1) =~= pieces.skip(1).push(last));
        assert(joined(more, c) =~= joined(pieces, c) + seq![c] + last);
    }
}

} // verus!
