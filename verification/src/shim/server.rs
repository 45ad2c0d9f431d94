//! The bridge's HTTP face: which request goes where.

use vstd::prelude::*;

use crate::shim::cache::LARGEST_CACHE;
use crate::shim::config::{public_url_of, ShimConfig};
use crate::shim::nip11::{plain, plain_of, HttpReply};
use crate::shim::transport::TransportCache;
use crate::text::opt_text;
use crate::urls::{https_url, https_url_of};

verus! {

/// What the bridge holds while it serves.
pub struct AppState<C> {
    pub config: ShimConfig,
    /// Where the bridge's own relay answers, if it runs.
    pub relay_url: Option<String>,
    /// The transports, shared by all connections and requests.
    pub transports: TransportCache<C>,
}

/// Where a request goes.
#[derive(Debug, PartialEq)]
pub enum Route {
    /// A WebSocket to the bridge's own relay, at this URL.
    OwnRelay(String),
    /// The bridge's own document.
    RootDoc,
    /// A WebSocket to the server that this path names, with this limit on the
    /// size of messages.
    Bridge { pubkey: String, max_message_bytes: usize },
    /// The document of the server that this path names.
    ServerDoc { pubkey: String },
}

pub enum RouteView {
    OwnRelay(Seq<char>),
    RootDoc,
    Bridge { pubkey: Seq<char>, max_message_bytes: usize },
    ServerDoc { pubkey: Seq<char> },
}

impl View for Route {
    type V = RouteView;

    open spec fn view(&self) -> RouteView {
        match self {
            Route::OwnRelay(url) => RouteView::OwnRelay(url@),
            Route::RootDoc => RouteView::RootDoc,
            Route::Bridge { pubkey, max_message_bytes } => RouteView::Bridge {
                pubkey: pubkey@,
                max_message_bytes: *max_message_bytes,
            },
            Route::ServerDoc { pubkey } => RouteView::ServerDoc { pubkey: pubkey@ },
        }
    }
}

impl<C> AppState<C> {
    /// The state of a bridge that has just started. `relay_url` is where its own
    /// relay answers, if it runs.
    pub fn new(config: ShimConfig, relay_url: Option<String>) -> (r: AppState<C>)
        requires
            1 <= config.max_cached_outlays <= LARGEST_CACHE,
        ensures
            r.config == config,
            r.relay_url == relay_url,
            r.transports.wf(),
            r.transports.entries().len() == 0,
            r.transports.cap() == config.max_cached_outlays,
    {
        let transports: TransportCache<C> = TransportCache::new(config.max_cached_outlays);
        AppState { config, relay_url, transports }
    }
}

/// Where a request for `/` goes: a WebSocket to the bridge's own relay where that
/// runs, everything else to the bridge's document.
pub fn root_route(relay_url: &Option<String>, is_upgrade: bool) -> (r: Route)
    ensures
        r@ == match opt_text(*relay_url) {
            Some(url) => if is_upgrade {
                RouteView::OwnRelay(url)
            } else {
                RouteView::RootDoc
            },
            None => RouteView::RootDoc,
        },
{
    match relay_url {
        Some(url) => if is_upgrade {
            Route::OwnRelay(url.as_str().to_owned())
        } else {
            Route::RootDoc
        },
        None => Route::RootDoc,
    }
}

/// Where a request for a server goes: a WebSocket to the server, everything else
/// to its document.
pub fn pubkey_route(config: &ShimConfig, pubkey: &str, is_upgrade: bool) -> (r: Route)
    ensures
        r@ == if is_upgrade {
            RouteView::Bridge {
                pubkey: pubkey@,
                max_message_bytes: config.max_ws_message_bytes,
            }
        } else {
            RouteView::ServerDoc { pubkey: pubkey@ }
        },
{
    if is_upgrade {
        Route::Bridge {
            pubkey: pubkey.to_owned(),
            max_message_bytes: config.max_ws_message_bytes,
        }
    } else {
        Route::ServerDoc { pubkey: pubkey.to_owned() }
    }
}

/// The answer to a WebSocket request that is malformed.
pub fn refused_upgrade(message: &str) -> (r: HttpReply)
    ensures
        r@ == plain_of(400, message@),
{
    plain(400, message)
}

/// How starting the bridge's own relay went.
#[derive(Debug, PartialEq)]
pub enum RelayStart {
    /// It is switched off.
    Off,
    /// It answers at this URL.
    Running(String),
    /// It did not start.
    Failed(String),
}

/// Where the bridge's own relay answers. The bridge serves without it too.
pub fn relay_after(start: RelayStart) -> (r: Option<String>)
    ensures
        opt_text(r) == match start {
            RelayStart::Running(url) => Some(url@),
            _ => None,
        },
{
    match start {
        RelayStart::Running(url) => Some(url),
        RelayStart::Off => None,
        RelayStart::Failed(_) => None,
    }
}

/// The page under which the bridge is reached with a browser.
pub fn public_page(config: &ShimConfig) -> (r: Option<String>)
    ensures
        opt_text(r) == match public_url_of(config@) {
            Some(url) => Some(https_url_of(url)),
            None => None,
        },
{
    match config.public_url() {
        Some(url) => Some(https_url(url)),
        None => None,
    }
}

/// A WebSocket at `/` goes to the bridge's own relay where it runs, and everything
/// else there to the bridge's document; a WebSocket at a server's path goes to the
/// server, with the size limit that is set, and everything else there to its document.
pub proof fn law_requests_are_routed(
    relay_url: Option<String>,
    config: ShimConfig,
    pubkey: &str,
    is_upgrade: bool,
    root: Route,
    server: Route,
)
    requires
        call_ensures(root_route, (&relay_url, is_upgrade), root),
        call_ensures(pubkey_route, (&config, pubkey, is_upgrade), server),
    ensures
        relay_url is Some && is_upgrade ==> (root matches Route::OwnRelay(url) && url@
            == relay_url->Some_0@),
        relay_url is None || !is_upgrade ==> root is RootDoc,
        is_upgrade ==> (server matches Route::Bridge { pubkey: key, max_message_bytes } && key@
            == pubkey@ && max_message_bytes == config.max_ws_message_bytes),
        !is_upgrade ==> (server matches Route::ServerDoc { pubkey: key } && key@ == pubkey@),
{
}

/// The bridge's own relay answers exactly where it runs.
pub proof fn law_own_relay_answers_where_it_runs(start: RelayStart, r: Option<String>)
    requires
        call_ensures(relay_after, (start,), r),
    ensures
        start matches RelayStart::Running(url) ==> (r matches Some(at) && at@ == url@),
        !(start is Running) ==> r is None,
{
}

/// The bridge's page is the web address of its first public URL.
pub proof fn law_public_page(config: ShimConfig, first: &str, web: String, r: Option<String>)
    requires
        call_ensures(public_page, (&config,), r),
        config.public_urls@.len() > 0 ==> first@ == config.public_urls@[0]@ && call_ensures(
            https_url,
            (first,),
            web,
        ),
    ensures
        config.public_urls@.len() == 0 ==> r is None,
        config.public_urls@.len() > 0 ==> (r matches Some(page) && page@ == web@),
{
    assert(crate::text::texts(config.public_urls@).len() == config.public_urls@.len());
}

/// A malformed WebSocket request is refused as such, with the reason.
pub proof fn law_malformed_upgrades_are_refused(message: &str, r: HttpReply)
    requires
        call_ensures(refused_upgrade, (message,), r),
    ensures
        r.status == 400,
        r.body@ == message@,
        r.content_type@ == "text/plain; charset=utf-8"@,
        !r.any_origin,
{
}

/// A bridge starts with its settings and without transports, with room for as many
/// as the settings say.
pub proof fn law_bridge_starts_without_transports<C>(
    config: ShimConfig,
    relay_url: Option<String>,
    r: AppState<C>,
)
    requires
        call_ensures(AppState::<C>::new, (config, relay_url), r),
    ensures
        r.config == config,
        r.relay_url == relay_url,
        r.transports.wf(),
        r.transports.entries().len() == 0,
        r.transports.cap() == config.max_cached_outlays,
{
}

} // verus!
