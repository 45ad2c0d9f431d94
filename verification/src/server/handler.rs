//! The tools that the server offers.

use vstd::prelude::*;

use crate::json::{entries_view, json_of_bytes, values, Json, JsonView};
use crate::server::nostr::{
    event_id, event_id_of, event_of, filters_of, read_event, read_filters,
};
use crate::server::proxy::{
    answered_doc, info_of, is_minimum, is_overlay, lemma_info, origin_of, outcome_of, push_field,
    InfoReply, Proxy, ProxyError, ProxyErrorView, PublishOutcome, SendResult, OUTLAY_VERSION,
};
use crate::server::subscription::{Phase, Subscription};
use crate::text::is_hex;

verus! {

/// What the arguments of `subscribe` hold.
#[derive(Debug, PartialEq)]
pub struct SubscribeParams {
    /// The subscription id that the client chose.
    pub subscription_id: String,
    /// NIP-01 filters.
    pub filters: Vec<Json>,
}

/// What the arguments of `publish_event` hold.
#[derive(Debug, PartialEq)]
pub struct PublishEventParams {
    /// A signed NIP-01 event.
    pub event: Json,
}

/// What the server says of itself.
#[derive(Debug, PartialEq)]
pub struct ServerCard {
    pub name: &'static str,
    pub version: &'static str,
    pub title: &'static str,
    pub instructions: &'static str,
}

/// What a client without an open stream is told.
pub open spec fn no_stream() -> Seq<char> {
    "subscribe requires CEP-41 open-stream; the client must advertise support and send a progressToken"@
}

/// A server of one upstream relay's tools. Every request that fails is answered
/// with a text.
#[derive(Debug)]
pub struct OutlayServer {
    pub proxy: Proxy,
}

impl OutlayServer {
    pub fn new(proxy: Proxy) -> (r: OutlayServer)
        ensures
            r.proxy == proxy,
    {
        OutlayServer { proxy }
    }

    /// Starts the subscription that a call of `subscribe` asks for, and gives the
    /// filters to subscribe with. A call needs an open stream, then filters that
    /// can be read, then at least one of them.
    pub fn subscribe(&self, p: SubscribeParams, has_stream: bool) -> (r: Result<
        (Subscription, Vec<nostr_sdk::Filter>),
        String,
    >)
        ensures
            match r {
                Ok((s, fs)) => {
                    &&& has_stream
                    &&& filters_of(values(p.filters@)) == Ok::<
                        Seq<nostr_sdk::Filter>,
                        Seq<char>,
                    >(fs@)
                    &&& fs@.len() > 0
                    &&& s.client_sub == p.subscription_id
                    &&& is_hex(s.upstream_id@, 32)
                    &&& s.phase == Phase::Open
                },
                Err(e) => if !has_stream {
                    e@ == no_stream()
                } else {
                    match filters_of(values(p.filters@)) {
                        Ok(fs) => fs.len() == 0 && e@ == ProxyError::message_of(
                            ProxyErrorView::EmptyFilters,
                        ),
                        Err(cause) => e@ == cause,
                    }
                },
            },
    {
        if !has_stream {
            return Err(
                "subscribe requires CEP-41 open-stream; the client must advertise support and send a progressToken".to_owned(),
            );
        }
        self.subscribe_to(p.subscription_id, read_filters(&p.filters))
    }

    /// Starts a subscription with the filters that were read.
    pub fn subscribe_to(
        &self,
        subscription_id: String,
        filters: Result<Vec<nostr_sdk::Filter>, String>,
    ) -> (r: Result<(Subscription, Vec<nostr_sdk::Filter>), String>)
        ensures
            match (r, filters) {
                (Ok((s, given)), Ok(fs)) => given == fs && fs@.len() > 0 && s.client_sub
                    == subscription_id && is_hex(s.upstream_id@, 32) && s.phase == Phase::Open,
                (Err(e), Ok(fs)) => fs@.len() == 0 && e@ == ProxyError::message_of(
                    ProxyErrorView::EmptyFilters,
                ),
                (Err(e), Err(cause)) => e == cause,
                (Ok(_), Err(_)) => false,
            },
    {
        match filters {
            Err(cause) => Err(cause),
            Ok(fs) => match self.proxy.subscribe(subscription_id, &fs) {
                Ok(s) => Ok((s, fs)),
                Err(e) => Err(e.message()),
            },
        }
    }

    /// The result of a call of `subscribe` whose stream is over.
    pub fn subscribe_output(&self) -> (r: Json)
        ensures
            r@ == JsonView::Object(Map::empty().insert("ok"@, JsonView::Bool(true))),
    {
        broadcast use crate::json::lemma_object_view;

        let mut entries: Vec<(String, Json)> = Vec::new();
        assert(entries_view(entries@) =~= Seq::empty());
        push_field(&mut entries, "ok", Json::Bool(true));
        Json::Object(entries)
    }

    /// The event that a call of `publish_event` asks to be sent, with its id. The
    /// event goes upstream as it is.
    pub fn event_to_publish(&self, p: &PublishEventParams) -> (r: Result<
        (nostr_sdk::Event, String),
        String,
    >)
        ensures
            match r {
                Ok((event, id)) => event_of(p.event@) == Ok::<nostr_sdk::Event, Seq<char>>(event)
                    && id@ == event_id_of(event) && is_hex(id@, 64),
                Err(e) => event_of(p.event@) == Err::<nostr_sdk::Event, Seq<char>>(e@),
            },
    {
        match read_event(&p.event) {
            Ok(event) => {
                let id: String = event_id(&event);
                Ok((event, id))
            },
            Err(e) => Err(e),
        }
    }

    /// The result of a call of `publish_event`.
    pub fn publish_event(&self, event_id: String, sent: SendResult) -> (r: Result<Json, String>)
        ensures
            match r {
                Ok(out) => outcome_of(event_id@, sent) matches Ok(o) && out@ == JsonView::Object(
                    PublishOutcome::fields(o),
                ),
                Err(e) => outcome_of(event_id@, sent) matches Err(cause) && e@
                    == ProxyError::message_of(cause),
            },
    {
        match self.proxy.publish_event(event_id, sent) {
            Ok(o) => Ok(o.to_json()),
            Err(e) => Err(e.message()),
        }
    }

    /// The result of a call of `relay_info`.
    pub fn relay_info(&self, reply: InfoReply) -> (r: Result<Json, String>)
        ensures
            match r {
                Ok(doc) => origin_of(self.proxy.upstream_url@) is Some && doc@ == JsonView::Object(
                    info_of(answered_doc(reply)),
                ),
                Err(e) => origin_of(self.proxy.upstream_url@) is None && e@
                    == ProxyError::message_of(
                    ProxyErrorView::RelayInfo(
                        "upstream URL must be ws:// or wss://, got: "@ + self.proxy.upstream_url@,
                    ),
                ),
            },
    {
        match self.proxy.relay_info(reply) {
            Ok(doc) => Ok(doc),
            Err(e) => Err(e.message()),
        }
    }

    /// What the server says of itself.
    pub fn get_info(&self) -> (r: ServerCard)
        ensures
            r.name@ == "outlay"@,
            r.version@ == OUTLAY_VERSION@,
            r.title@ == "outlay — Nostr relay over ContextVM"@,
            r.instructions@
                == "Transparent Nostr relay proxy. Call subscribe (streaming) to open a NIP-01 subscription, publish_event to forward a signed event, or relay_info for the upstream's NIP-11 document."@,
    {
        ServerCard {
            name: "outlay",
            version: OUTLAY_VERSION,
            title: "outlay — Nostr relay over ContextVM",
            instructions:
                "Transparent Nostr relay proxy. Call subscribe (streaming) to open a NIP-01 subscription, publish_event to forward a signed event, or relay_info for the upstream's NIP-11 document.",
        }
    }
}

/// A call of `subscribe` opens a subscription under the client's name, for all the
/// filters that the client sent. It is refused without an open stream, for a filter
/// that cannot be read, and without filters, in this order.
pub proof fn law_subscribe_takes_all_filters(
    server: OutlayServer,
    p: SubscribeParams,
    has_stream: bool,
    r: Result<(Subscription, Vec<nostr_sdk::Filter>), String>,
    read: Result<Vec<nostr_sdk::Filter>, String>,
)
    requires
        call_ensures(OutlayServer::subscribe, (&server, p, has_stream), r),
        call_ensures(read_filters, (&p.filters,), read),
    ensures
        r is Ok <==> has_stream && read is Ok && p.filters@.len() > 0,
        r matches Ok((s, fs)) ==> s.client_sub == p.subscription_id && s.phase == Phase::Open
            && s.upstream_id@.len() == 32 && fs@.len() == p.filters@.len() && forall|i: int|
            0 <= i < fs@.len() ==> crate::server::nostr::filter_of((#[trigger] p.filters@[i])@)
                == Ok::<nostr_sdk::Filter, Seq<char>>(fs@[i]),
        !has_stream ==> (r matches Err(e) && e@
            == "subscribe requires CEP-41 open-stream; the client must advertise support and send a progressToken"@),
        has_stream && read is Err ==> (r matches Err(e) && e@ == read->Err_0@),
        has_stream && read is Ok && p.filters@.len() == 0 ==> (r matches Err(e) && e@
            == "subscribe filters must be non-empty"@),
{
    let _ = crate::server::nostr::law_all_filters_are_read(p.filters, read);
}

/// Filters that were read are those subscribed with.
pub proof fn law_subscribe_goes_by_what_was_read(
    server: OutlayServer,
    subscription_id: String,
    filters: Result<Vec<nostr_sdk::Filter>, String>,
    r: Result<(Subscription, Vec<nostr_sdk::Filter>), String>,
)
    requires
        call_ensures(OutlayServer::subscribe_to, (&server, subscription_id, filters), r),
    ensures
        r is Ok <==> filters is Ok && filters->Ok_0@.len() > 0,
        r matches Ok((s, fs)) ==> fs == filters->Ok_0 && s.client_sub == subscription_id && s.phase
            == Phase::Open && s.upstream_id@.len() == 32,
        filters matches Err(cause) ==> (r matches Err(e) && e@ == cause@),
        (filters matches Ok(fs) && fs@.len() == 0) ==> (r matches Err(e) && e@
            == "subscribe filters must be non-empty"@),
{
}

/// The event that a client sends is the one that is sent upstream, with its own id.
pub proof fn law_events_are_forwarded_as_they_are(
    server: OutlayServer,
    p: PublishEventParams,
    r: Result<(nostr_sdk::Event, String), String>,
)
    requires
        call_ensures(OutlayServer::event_to_publish, (&server, &p), r),
    ensures
        r matches Ok((event, id)) ==> event_of(p.event@) == Ok::<nostr_sdk::Event, Seq<char>>(event)
            && id@ == event_id_of(event),
        r matches Err(e) ==> event_of(p.event@) == Err::<nostr_sdk::Event, Seq<char>>(e@),
{
}

/// The result of `publish_event` says that the event was taken exactly where some
/// relay took it, under the event's own id, and else why not.
pub proof fn law_publish_reports_what_the_relay_said(
    server: OutlayServer,
    event_id: String,
    sent: SendResult,
    r: Result<Json, String>,
)
    requires
        call_ensures(OutlayServer::publish_event, (&server, event_id, sent), r),
    ensures
        sent matches SendResult::Failed(cause) ==> (r matches Err(e) && e@
            == "upstream publish failed: "@ + cause@),
        !(sent is Failed) ==> (r matches Ok(out) && out@ is Object && out@->Object_0.dom() == set![
            "ok"@,
            "event_id"@,
            "message"@,
        ] && out@->Object_0["event_id"@] == JsonView::Str(event_id@)),
        sent is TimedOut ==> (r matches Ok(out) && out@->Object_0["ok"@] == JsonView::Bool(false)
            && out@->Object_0["message"@] == JsonView::Str("error: upstream did not acknowledge"@)),
        sent matches SendResult::Sent { accepted_by, errors } ==> (r matches Ok(out)
            && out@->Object_0["ok"@] == JsonView::Bool(accepted_by@.len() > 0)
            && out@->Object_0["message"@] == JsonView::Str(
            if accepted_by@.len() > 0 {
                ""@
            } else if errors@.len() > 0 {
                errors@[0]@
            } else {
                "error: upstream did not accept the event"@
            },
        )),
{
    reveal_strlit("ok");
    reveal_strlit("event_id");
    reveal_strlit("message");
    assert("ok"@.len() == 2 && "event_id"@.len() == 8 && "message"@.len() == 7);
    if let Ok(out) = r {
        assert(out@->Object_0.dom() =~= set!["ok"@, "event_id"@, "message"@]);
    }
}

/// The result of `relay_info` is the document that the upstream relay serves, with
/// the server's identity laid over it, or the smallest one where it serves none.
pub proof fn law_relay_info_is_the_upstream_document(
    server: OutlayServer,
    reply: InfoReply,
    r: Result<Json, String>,
)
    requires
        call_ensures(OutlayServer::relay_info, (&server, reply), r),
    ensures
        r is Ok <==> "ws://"@.is_prefix_of(server.proxy.upstream_url@) || "wss://"@.is_prefix_of(
            server.proxy.upstream_url@,
        ),
        r matches Err(e) ==> e@ == "relay_info: "@ + ("upstream URL must be ws:// or wss://, got: "@
            + server.proxy.upstream_url@),
        r matches Ok(doc) ==> doc@ is Object && match reply {
            InfoReply::Answer { success: true, body } => match json_of_bytes(body@) {
                Some(JsonView::Object(fields)) => is_overlay(doc@->Object_0, fields),
                _ => is_minimum(doc@->Object_0),
            },
            _ => is_minimum(doc@->Object_0),
        },
{
    match reply {
        InfoReply::Answer { success: true, body } => lemma_info(json_of_bytes(body@)),
        _ => lemma_info(None),
    }
}

/// A subscription that is over was a success, and the server says who it is.
pub proof fn law_server_card(proxy: Proxy, server: OutlayServer, output: Json, card: ServerCard)
    requires
        call_ensures(OutlayServer::new, (proxy,), server),
        call_ensures(OutlayServer::subscribe_output, (&server,), output),
        call_ensures(OutlayServer::get_info, (&server,), card),
    ensures
        server.proxy == proxy,
        output@ is Object,
        output@->Object_0.dom() == set!["ok"@],
        output@->Object_0["ok"@] == JsonView::Bool(true),
        card.name@ == "outlay"@,
        card.version@ == "0.3.1"@,
        card.title@ == "outlay — Nostr relay over ContextVM"@,
        card.instructions@
            == "Transparent Nostr relay proxy. Call subscribe (streaming) to open a NIP-01 subscription, publish_event to forward a signed event, or relay_info for the upstream's NIP-11 document."@,
{
    assert(output@->Object_0.dom() =~= set!["ok"@]);
}

} // verus!
