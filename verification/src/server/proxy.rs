//! What passes between a client's stream and the upstream relay.

use vstd::prelude::*;

use crate::json::{
    entries_view, fields_of, json_array, json_number, json_of_bytes, json_text,
    number, plain_within, readable_within, reads_back, values, Json, JsonView,
};
use crate::text::{opt_text, same, strip_prefix, strip_prefix_of, to_chars};

verus! {

/// The version that the server states of itself.
pub const OUTLAY_VERSION: &'static str = "0.3.1";

/// How often a stream is looked at for a client that has gone without a word, in
/// seconds.
pub const SINK_ACTIVE_POLL_SECS: u64 = 1;

/// How long a published event may wait for its `OK`, in seconds.
pub const PUBLISH_TIMEOUT_SECS: u64 = 15;

/// How long the upstream relay may take to send its document, in seconds.
pub const RELAY_INFO_TIMEOUT_SECS: u64 = 10;

/// Why a request to the proxy failed.
#[derive(Debug, PartialEq)]
pub enum ProxyError {
    Init(String),
    Connect(String),
    EmptyFilters,
    Subscribe(String),
    Publish(String),
    PublishTimeout,
    RelayInfo(String),
}

pub enum ProxyErrorView {
    Init(Seq<char>),
    Connect(Seq<char>),
    EmptyFilters,
    Subscribe(Seq<char>),
    Publish(Seq<char>),
    PublishTimeout,
    RelayInfo(Seq<char>),
}

impl View for ProxyError {
    type V = ProxyErrorView;

    open spec fn view(&self) -> ProxyErrorView {
        match self {
            ProxyError::Init(e) => ProxyErrorView::Init(e@),
            ProxyError::Connect(e) => ProxyErrorView::Connect(e@),
            ProxyError::EmptyFilters => ProxyErrorView::EmptyFilters,
            ProxyError::Subscribe(e) => ProxyErrorView::Subscribe(e@),
            ProxyError::Publish(e) => ProxyErrorView::Publish(e@),
            ProxyError::PublishTimeout => ProxyErrorView::PublishTimeout,
            ProxyError::RelayInfo(e) => ProxyErrorView::RelayInfo(e@),
        }
    }
}

impl ProxyError {
    pub open spec fn message_of(e: ProxyErrorView) -> Seq<char> {
        match e {
            ProxyErrorView::Init(e) => "upstream relay pool init failed: "@ + e,
            ProxyErrorView::Connect(e) => "upstream relay connect failed: "@ + e,
            ProxyErrorView::EmptyFilters => "subscribe filters must be non-empty"@,
            ProxyErrorView::Subscribe(e) => "upstream subscribe failed: "@ + e,
            ProxyErrorView::Publish(e) => "upstream publish failed: "@ + e,
            ProxyErrorView::PublishTimeout =>
                "upstream did not acknowledge the event within timeout"@,
            ProxyErrorView::RelayInfo(e) => "relay_info: "@ + e,
        }
    }

    /// What the client is told.
    pub fn message(&self) -> (r: String)
        ensures
            r@ == Self::message_of(self@),
    {
        match self {
            ProxyError::Init(e) => "upstream relay pool init failed: ".to_owned().concat(e.as_str()),
            ProxyError::Connect(e) => "upstream relay connect failed: ".to_owned().concat(e.as_str()),
            ProxyError::EmptyFilters => "subscribe filters must be non-empty".to_owned(),
            ProxyError::Subscribe(e) => "upstream subscribe failed: ".to_owned().concat(e.as_str()),
            ProxyError::Publish(e) => "upstream publish failed: ".to_owned().concat(e.as_str()),
            ProxyError::PublishTimeout =>
                "upstream did not acknowledge the event within timeout".to_owned(),
            ProxyError::RelayInfo(e) => "relay_info: ".to_owned().concat(e.as_str()),
        }
    }
}

/// What the pool of upstream relays reports.
#[derive(Debug, PartialEq)]
pub enum Notification {
    /// An `EVENT` message.
    Event { subscription_id: String, event: Json },
    /// An `EOSE` message.
    EndOfStoredEvents { subscription_id: String },
    /// A `CLOSED` message.
    Closed { subscription_id: String, message: String },
    /// Any other message of a relay, such as `OK` or `NOTICE`.
    OtherMessage,
    /// An event that is seen for the first time, reported once for all
    /// subscriptions.
    FirstSeen,
    /// The pool has shut down.
    Shutdown,
}

pub enum NotificationView {
    Event { subscription_id: Seq<char>, event: JsonView },
    EndOfStoredEvents { subscription_id: Seq<char> },
    Closed { subscription_id: Seq<char>, message: Seq<char> },
    OtherMessage,
    FirstSeen,
    Shutdown,
}

impl View for Notification {
    type V = NotificationView;

    open spec fn view(&self) -> NotificationView {
        match self {
            Notification::Event { subscription_id, event } => NotificationView::Event {
                subscription_id: subscription_id@,
                event: event@,
            },
            Notification::EndOfStoredEvents { subscription_id } =>
                NotificationView::EndOfStoredEvents { subscription_id: subscription_id@ },
            Notification::Closed { subscription_id, message } => NotificationView::Closed {
                subscription_id: subscription_id@,
                message: message@,
            },
            Notification::OtherMessage => NotificationView::OtherMessage,
            Notification::FirstSeen => NotificationView::FirstSeen,
            Notification::Shutdown => NotificationView::Shutdown,
        }
    }
}

/// What a notification means for one subscription's stream.
#[derive(Debug, PartialEq)]
pub enum Forward {
    /// Write this chunk and go on.
    Continue(String),
    /// Write this chunk and end the stream.
    Stop(String),
}

/// A NIP-01 message to the client, and whether it is the last of its stream.
pub struct Message {
    pub value: JsonView,
    pub last: bool,
}

pub open spec fn event_message(sub: Seq<char>, event: JsonView) -> JsonView {
    JsonView::Array(seq![JsonView::Str("EVENT"@), JsonView::Str(sub), event])
}

pub open spec fn eose_message(sub: Seq<char>) -> JsonView {
    JsonView::Array(seq![JsonView::Str("EOSE"@), JsonView::Str(sub)])
}

pub open spec fn closed_message(sub: Seq<char>, message: Seq<char>) -> JsonView {
    JsonView::Array(seq![JsonView::Str("CLOSED"@), JsonView::Str(sub), JsonView::Str(message)])
}

/// The message that a notification makes for the client's subscription
/// `client_sub`, which the upstream relay knows as `upstream_id`. Messages of
/// other subscriptions make none.
pub open spec fn message_of(
    n: NotificationView,
    upstream_id: Seq<char>,
    client_sub: Seq<char>,
) -> Option<Message> {
    match n {
        NotificationView::Event { subscription_id, event } => if subscription_id == upstream_id {
            Some(Message { value: event_message(client_sub, event), last: false })
        } else {
            None
        },
        NotificationView::EndOfStoredEvents { subscription_id } => if subscription_id
            == upstream_id {
            Some(Message { value: eose_message(client_sub), last: false })
        } else {
            None
        },
        NotificationView::Closed { subscription_id, message } => if subscription_id
            == upstream_id {
            Some(Message { value: closed_message(client_sub, message), last: true })
        } else {
            None
        },
        NotificationView::Shutdown => Some(
            Message {
                value: closed_message(client_sub, "error: upstream relay pool shut down"@),
                last: true,
            },
        ),
        NotificationView::OtherMessage => None,
        NotificationView::FirstSeen => None,
    }
}

/// The text of a JSON array.
pub(crate) fn chunk(parts: Vec<Json>) -> (r: String)
    ensures
        r@ == json_text(JsonView::Array(values(parts@))),
        reads_back(r@, JsonView::Array(values(parts@))),
{
    broadcast use crate::json::lemma_array_view;

    Json::Array(parts).text()
}

/// A string value.
pub(crate) fn str_json(s: &str) -> (r: Json)
    ensures
        r@ == JsonView::Str(s@),
{
    Json::Str(s.to_owned())
}

pub(crate) fn closed_chunk(sub: &str, message: &str) -> (r: String)
    ensures
        r@ == json_text(closed_message(sub@, message@)),
        reads_back(r@, closed_message(sub@, message@)),
{
    let parts: Vec<Json> = vec![str_json("CLOSED"), str_json(sub), str_json(message)];
    assert(JsonView::Array(values(parts@)) == closed_message(sub@, message@)) by {
        assert(values(parts@) =~= closed_message(sub@, message@)->Array_0);
    }
    chunk(parts)
}

/// The chunk that a notification makes for one subscription's stream, if any.
pub fn map_notification(n: &Notification, upstream_id: &str, client_sub: &str) -> (r: Option<
    Forward,
>)
    ensures
        match r {
            Some(Forward::Continue(c)) => message_of(n@, upstream_id@, client_sub@) matches Some(m)
                && !m.last && c@ == json_text(m.value) && reads_back(c@, m.value),
            Some(Forward::Stop(c)) => message_of(n@, upstream_id@, client_sub@) matches Some(m)
                && m.last && c@ == json_text(m.value) && reads_back(c@, m.value),
            None => message_of(n@, upstream_id@, client_sub@) is None,
        },
{
    match n {
        Notification::Event { subscription_id, event } => {
            if !same(subscription_id.as_str(), upstream_id) {
                return None;
            }
            let parts: Vec<Json> = vec![str_json("EVENT"), str_json(client_sub), event.clone()];
            assert(values(parts@) =~= event_message(client_sub@, event@)->Array_0);
            Some(Forward::Continue(chunk(parts)))
        },
        Notification::EndOfStoredEvents { subscription_id } => {
            if !same(subscription_id.as_str(), upstream_id) {
                return None;
            }
            let parts: Vec<Json> = vec![str_json("EOSE"), str_json(client_sub)];
            assert(values(parts@) =~= eose_message(client_sub@)->Array_0);
            Some(Forward::Continue(chunk(parts)))
        },
        Notification::Closed { subscription_id, message } => {
            if !same(subscription_id.as_str(), upstream_id) {
                return None;
            }
            Some(Forward::Stop(closed_chunk(client_sub, message.as_str())))
        },
        Notification::Shutdown => {
            Some(Forward::Stop(closed_chunk(client_sub, "error: upstream relay pool shut down")))
        },
        Notification::OtherMessage => None,
        Notification::FirstSeen => None,
    }
}

/// Streams are isolated: no message of a relay reaches two subscriptions that
/// the relay knows by different ids.
pub proof fn law_streams_are_isolated(
    n: NotificationView,
    mine: Seq<char>,
    theirs: Seq<char>,
    my_sub: Seq<char>,
    their_sub: Seq<char>,
)
    requires
        mine != theirs,
        !(n is Shutdown),
    ensures
        message_of(n, mine, my_sub) is None || message_of(n, theirs, their_sub) is None,
{
}

/// Every message to the client bears the client's own subscription id, whatever
/// id the upstream relay knows.
pub proof fn law_client_sees_its_own_id(
    n: NotificationView,
    upstream_id: Seq<char>,
    client_sub: Seq<char>,
)
    ensures
        message_of(n, upstream_id, client_sub) matches Some(m) ==> m.value is Array && m.value->Array_0.len()
            >= 2 && m.value->Array_0[1] == JsonView::Str(client_sub),
{
}

/// A chunk that is read as JSON is an array whose second item is the client's
/// subscription id, unless the event in it cannot be read. Where the event is
/// plain, the message is read as it was written.
pub proof fn law_chunk_is_a_client_message(
    n: NotificationView,
    upstream_id: Seq<char>,
    client_sub: Seq<char>,
    written: Seq<char>,
)
    requires
        message_of(n, upstream_id, client_sub) matches Some(m) && reads_back(written, m.value),
        n matches NotificationView::Event { subscription_id, event } ==> readable_within(event, 126),
    ensures
        json_array(written) matches Some(read) && read.len() >= 2 && read[1] == JsonView::Str(
            client_sub,
        ) && (read[0] == JsonView::Str("EVENT"@) || read[0] == JsonView::Str("EOSE"@) || read[0]
            == JsonView::Str("CLOSED"@)),
        (n matches NotificationView::Event { subscription_id, event } ==> plain_within(event, 126))
            ==> json_array(written) == Some(
            message_of(n, upstream_id, client_sub).unwrap().value->Array_0,
        ),
{
    let m = message_of(n, upstream_id, client_sub).unwrap();
    let items = m.value->Array_0;
    assert forall|i: int| 0 <= i < items.len() implies readable_within(#[trigger] items[i], 126) by {
        if i < 2 {
            assert(items[i] is Str);
        }
    }
    assert(readable_within(m.value, 127));
    let read = json_array(written).unwrap();
    assert(plain_within(items[0], 126) && plain_within(items[1], 126));
    assert(read[0] == items[0]);
    assert(read[1] == items[1]);
    if n matches NotificationView::Event { subscription_id, event } ==> plain_within(event, 126) {
        assert forall|i: int| 0 <= i < items.len() implies read[i] == items[i] by {
            assert(plain_within(items[i], 126));
        }
        assert(read =~= items);
    }
}

/// Whether `c` ends the authority of a URL: it begins a path, a query or a
/// fragment.
pub open spec fn ends_authority(c: char) -> bool {
    c == '/' || c == '?' || c == '#'
}

/// Where the authority at the start of `rest` ends: at the first character that
/// ends it, or with `rest` if none does.
pub open spec fn authority_end(rest: Seq<char>) -> int
    decreases rest.len(),
{
    if rest.len() == 0 || ends_authority(rest[0]) {
        0
    } else {
        1 + authority_end(rest.drop_first())
    }
}

proof fn lemma_authority_end(rest: Seq<char>)
    ensures
        0 <= authority_end(rest) <= rest.len(),
        authority_end(rest) < rest.len() ==> ends_authority(rest[authority_end(rest)]),
        forall|i: int| 0 <= i < authority_end(rest) ==> !ends_authority(#[trigger] rest[i]),
    decreases rest.len(),
{
    if rest.len() > 0 && !ends_authority(rest[0]) {
        let tail = rest.drop_first();
        lemma_authority_end(tail);
        assert forall|i: int| 0 <= i < authority_end(rest) implies !ends_authority(
            #[trigger] rest[i],
        ) by {
            if i > 0 {
                assert(rest[i] == tail[i - 1]);
            }
        }
    }
}

proof fn lemma_authority_end_is(rest: Seq<char>, at: int)
    requires
        0 <= at <= rest.len(),
        at < rest.len() ==> ends_authority(rest[at]),
        forall|i: int| 0 <= i < at ==> !ends_authority(#[trigger] rest[i]),
    ensures
        authority_end(rest) == at,
{
    lemma_authority_end(rest);
    let end = authority_end(rest);
    if end < at {
        assert(!ends_authority(rest[end]));
    }
    if at < end {
        assert(!ends_authority(rest[at]));
    }
}

/// The HTTP address at which an upstream relay describes itself: the scheme and
/// the authority of its WebSocket URL, without path, query or fragment.
pub open spec fn origin_of(upstream: Seq<char>) -> Option<Seq<char>> {
    match strip_prefix_of(upstream, "wss://"@) {
        Some(rest) => Some("https://"@ + rest.take(authority_end(rest))),
        None => match strip_prefix_of(upstream, "ws://"@) {
            Some(rest) => Some("http://"@ + rest.take(authority_end(rest))),
            None => None,
        },
    }
}

fn authority<'a>(rest: &'a str) -> (r: &'a str)
    ensures
        r@ == rest@.take(authority_end(rest@)),
{
    let chars: Vec<char> = to_chars(rest);
    let mut end: usize = 0;
    while end < chars.len() && chars[end] != '/' && chars[end] != '?' && chars[end] != '#'
        invariant
            end <= chars@.len(),
            chars@ == rest@,
            forall|i: int| 0 <= i < end ==> !ends_authority(#[trigger] rest@[i]),
        decreases chars@.len() - end,
    {
        end += 1;
    }
    proof {
        lemma_authority_end_is(rest@, end as int);
    }
    assert(rest@.subrange(0, end as int) =~= rest@.take(end as int));
    rest.substring_char(0, end)
}

/// The HTTP address at which an upstream relay describes itself.
pub fn nip11_origin(upstream: &str) -> (r: Option<String>)
    ensures
        opt_text(r) == origin_of(upstream@),
{
    if let Some(rest) = strip_prefix(upstream, "wss://") {
        Some("https://".to_owned().concat(authority(rest)))
    } else if let Some(rest) = strip_prefix(upstream, "ws://") {
        Some("http://".to_owned().concat(authority(rest)))
    } else {
        None
    }
}

/// The path of a URL, its query and its fragment play no part in its address.
pub proof fn law_origin_drops_the_path(upstream: Seq<char>, tail: Seq<char>)
    requires
        strip_prefix_of(upstream, "wss://"@) is Some || strip_prefix_of(upstream, "ws://"@) is Some,
        tail.len() > 0,
        ends_authority(tail[0]),
    ensures
        origin_of(upstream + tail) == origin_of(upstream),
{
    reveal_strlit("wss://");
    reveal_strlit("ws://");
    let longer = upstream + tail;
    assert(longer.subrange(0, 5) =~= upstream.subrange(0, 5));
    if "wss://"@.is_prefix_of(upstream) {
        assert(longer.subrange(0, 6) =~= upstream.subrange(0, 6));
        lemma_authority_of_longer(upstream.skip(6), tail);
        assert(longer.skip(6) =~= upstream.skip(6) + tail);
    } else {
        assert(longer.subrange(0, 5) =~= "ws://"@);
        assert(longer.subrange(0, 6)[2] == ':');
        lemma_authority_of_longer(upstream.skip(5), tail);
        assert(longer.skip(5) =~= upstream.skip(5) + tail);
    }
}

proof fn lemma_authority_of_longer(rest: Seq<char>, tail: Seq<char>)
    requires
        tail.len() > 0,
        ends_authority(tail[0]),
    ensures
        ({
            let longer = rest + tail;
            longer.take(authority_end(longer)) == rest.take(authority_end(rest))
        }),
{
    let longer = rest + tail;
    lemma_authority_end(rest);
    let at = authority_end(rest);
    assert forall|i: int| 0 <= i < at implies !ends_authority(#[trigger] longer[i]) by {
        assert(longer[i] == rest[i]);
    }
    if at < rest.len() {
        assert(longer[at] == rest[at]);
    } else {
        assert(longer[at] == tail[0]);
    }
    lemma_authority_end_is(longer, at);
    assert(longer.take(at) =~= rest.take(at));
}

/// The part of an upstream relay's identity that is kept under `upstream`.
pub open spec fn upstream_identity(doc: Map<Seq<char>, JsonView>) -> Map<Seq<char>, JsonView> {
    doc.restrict(set!["software"@, "version"@])
}

/// The server's identity laid over an upstream relay's document: the relay's own
/// `software` and `version` move under `upstream`, and every other field stays.
pub open spec fn overlay_of(doc: Map<Seq<char>, JsonView>) -> Map<Seq<char>, JsonView> {
    let moved = upstream_identity(doc);
    let kept = if moved.dom().is_empty() {
        doc
    } else {
        doc.insert("upstream"@, JsonView::Object(moved))
    };
    kept.insert("software"@, JsonView::Str("outlay"@)).insert(
        "version"@,
        JsonView::Str(OUTLAY_VERSION@),
    ).insert("proxy"@, JsonView::Bool(true))
}

/// Lays the server's identity over an upstream relay's document.
pub fn overlay_proxy_info(doc: Json) -> (r: Json)
    requires
        doc@ is Object,
    ensures
        r@ == JsonView::Object(overlay_of(doc@->Object_0)),
{
    broadcast use crate::json::lemma_object_view;

    let ghost fields = doc@->Object_0;
    let mut moved: Vec<(String, Json)> = Vec::new();
    assert(entries_view(moved@) =~= Seq::empty());
    if let Some(v) = doc.get("software") {
        push_field(&mut moved, "software", v.clone());
    }
    if let Some(v) = doc.get("version") {
        push_field(&mut moved, "version", v.clone());
    }
    proof {
        reveal_strlit("software");
        reveal_strlit("version");
        assert("software"@ != "version"@) by {
            assert("software"@.len() != "version"@.len());
        }
        assert(fields_of(entries_view(moved@)) =~= upstream_identity(fields));
    }
    let named: bool = moved.len() > 0;
    proof {
        if named {
            lemma_last_field(entries_view(moved@));
        } else {
            assert(entries_view(moved@) =~= Seq::empty());
        }
    }
    let mut entries: Vec<(String, Json)> = match doc {
        Json::Object(entries) => entries,
        _ => Vec::new(),
    };
    if named {
        push_field(&mut entries, "upstream", Json::Object(moved));
    }
    push_field(&mut entries, "software", str_json("outlay"));
    push_field(&mut entries, "version", str_json(OUTLAY_VERSION));
    push_field(&mut entries, "proxy", Json::Bool(true));
    Json::Object(entries)
}

proof fn lemma_last_field(entries: Seq<(Seq<char>, JsonView)>)
    requires
        entries.len() > 0,
    ensures
        fields_of(entries).contains_key(entries.last().0),
        !fields_of(entries).dom().is_empty(),
{
    assert(fields_of(entries).dom().contains(entries.last().0));
}

/// Gives an object a field.
pub(crate) fn push_field(entries: &mut Vec<(String, Json)>, key: &str, value: Json)
    ensures
        fields_of(entries_view(final(entries)@)) == fields_of(entries_view(old(entries)@)).insert(
            key@,
            value@,
        ),
        final(entries)@.len() == old(entries)@.len() + 1,
{
    entries.push((key.to_owned(), value));
    assert(entries_view(entries@).drop_last() =~= entries_view(old(entries)@));
}

/// The document of a server whose upstream relay offers none.
pub open spec fn synthesized_info() -> Map<Seq<char>, JsonView> {
    Map::empty().insert("software"@, JsonView::Str("outlay"@)).insert(
        "version"@,
        JsonView::Str(OUTLAY_VERSION@),
    ).insert("proxy"@, JsonView::Bool(true)).insert(
        "supported_nips"@,
        JsonView::Array(seq![JsonView::Number(json_number(1))]),
    )
}

/// The document of a server whose upstream relay offers none.
pub fn synthesized_proxy_info() -> (r: Json)
    ensures
        r@ == JsonView::Object(synthesized_info()),
{
    broadcast use {crate::json::lemma_object_view, crate::json::lemma_array_view};

    let nips: Vec<Json> = vec![Json::Number(number(1))];
    assert(values(nips@) =~= seq![JsonView::Number(json_number(1))]);
    let mut entries: Vec<(String, Json)> = Vec::new();
    assert(entries_view(entries@) =~= Seq::empty());
    push_field(&mut entries, "software", str_json("outlay"));
    push_field(&mut entries, "version", str_json(OUTLAY_VERSION));
    push_field(&mut entries, "proxy", Json::Bool(true));
    push_field(&mut entries, "supported_nips", Json::Array(nips));
    Json::Object(entries)
}


/// A relay's document as the client gets it: the upstream relay's own with the
/// server's identity laid over it, where it is an object, else a minimum.
pub open spec fn info_of(doc: Option<JsonView>) -> Map<Seq<char>, JsonView> {
    match doc {
        Some(JsonView::Object(fields)) => overlay_of(fields),
        _ => synthesized_info(),
    }
}

/// The document for the client, from what the upstream relay answered.
pub fn relay_info_doc(doc: Option<Json>) -> (r: Json)
    ensures
        r@ == JsonView::Object(
            info_of(
                match doc {
                    Some(d) => Some(d@),
                    None => None,
                },
            ),
        ),
{
    match doc {
        Some(Json::Object(entries)) => {
            broadcast use crate::json::lemma_object_view;

            overlay_proxy_info(Json::Object(entries))
        },
        _ => synthesized_proxy_info(),
    }
}

/// The server's identity stands on top of every document, whatever the upstream
/// relay says of itself.
pub proof fn law_identity_is_stamped(doc: Option<JsonView>)
    ensures
        info_of(doc).contains_pair("software"@, JsonView::Str("outlay"@)),
        info_of(doc).contains_pair("version"@, JsonView::Str(OUTLAY_VERSION@)),
        info_of(doc).contains_pair("proxy"@, JsonView::Bool(true)),
{
    reveal_strlit("software");
    reveal_strlit("version");
    reveal_strlit("proxy");
    reveal_strlit("supported_nips");
    assert("software"@.len() == 8 && "version"@.len() == 7 && "proxy"@.len() == 5
        && "supported_nips"@.len() == 14);
}

/// Every field of an upstream document passes through as it is, but for the
/// identity laid over it; and the upstream relay's own identity is kept under
/// `upstream` where it states one, in place of what it has there.
pub proof fn law_upstream_fields_pass_through(doc: Map<Seq<char>, JsonView>, key: Seq<char>)
    ensures
        key != "software"@ && key != "version"@ && key != "proxy"@ && key != "upstream"@ ==> (
        info_of(Some(JsonView::Object(doc))).contains_key(key) == doc.contains_key(key) && (
        doc.contains_key(key) ==> info_of(Some(JsonView::Object(doc)))[key] == doc[key])),
        doc.contains_key("software"@) || doc.contains_key("version"@) ==> info_of(
            Some(JsonView::Object(doc)),
        ).contains_pair("upstream"@, JsonView::Object(upstream_identity(doc))),
        !doc.contains_key("software"@) && !doc.contains_key("version"@) ==> (info_of(
            Some(JsonView::Object(doc)),
        ).contains_key("upstream"@) == doc.contains_key("upstream"@) && (doc.contains_key(
            "upstream"@,
        ) ==> info_of(Some(JsonView::Object(doc)))["upstream"@] == doc["upstream"@])),
{
    reveal_strlit("software");
    reveal_strlit("version");
    reveal_strlit("proxy");
    reveal_strlit("upstream");
    let upstream = "upstream"@;
    assert(upstream.len() == 8 && upstream[0] == 'u' && "software"@[0] == 's');
    assert("version"@.len() == 7 && "proxy"@.len() == 5);
    let moved = upstream_identity(doc);
    if doc.contains_key("software"@) {
        assert(moved.dom().contains("software"@));
    }
    if doc.contains_key("version"@) {
        assert(moved.dom().contains("version"@));
    }
    if !doc.contains_key("software"@) && !doc.contains_key("version"@) {
        assert(moved.dom() =~= Set::empty());
    }
}

/// What the upstream relay said of a published event.
#[derive(Debug, PartialEq)]
pub struct PublishOutcome {
    pub ok: bool,
    pub event_id: String,
    pub message: String,
}

pub struct PublishOutcomeView {
    pub ok: bool,
    pub event_id: Seq<char>,
    pub message: Seq<char>,
}

impl View for PublishOutcome {
    type V = PublishOutcomeView;

    open spec fn view(&self) -> PublishOutcomeView {
        PublishOutcomeView { ok: self.ok, event_id: self.event_id@, message: self.message@ }
    }
}

impl PublishOutcome {
    pub open spec fn fields(o: PublishOutcomeView) -> Map<Seq<char>, JsonView> {
        Map::empty().insert("ok"@, JsonView::Bool(o.ok)).insert(
            "event_id"@,
            JsonView::Str(o.event_id),
        ).insert("message"@, JsonView::Str(o.message))
    }

    /// The result of the call.
    pub fn to_json(&self) -> (r: Json)
        ensures
            r@ == JsonView::Object(Self::fields(self@)),
    {
        broadcast use crate::json::lemma_object_view;

        let mut entries: Vec<(String, Json)> = Vec::new();
        assert(entries_view(entries@) =~= Seq::empty());
        push_field(&mut entries, "ok", Json::Bool(self.ok));
        push_field(&mut entries, "event_id", str_json(self.event_id.as_str()));
        push_field(&mut entries, "message", str_json(self.message.as_str()));
        Json::Object(entries)
    }
}

/// How sending an event upstream went.
#[derive(Debug, PartialEq)]
pub enum SendResult {
    /// No relay answered in time.
    TimedOut,
    /// The event was not sent.
    Failed(String),
    /// The relays that took the event, and what the others said against it.
    Sent { accepted_by: Vec<String>, errors: Vec<String> },
}

/// The outcome of publishing an event: an event that some relay took is
/// published. Of one that none took, the first objection is reported.
pub open spec fn outcome_of(event_id: Seq<char>, sent: SendResult) -> Result<
    PublishOutcomeView,
    ProxyErrorView,
> {
    match sent {
        SendResult::TimedOut => Ok(
            PublishOutcomeView {
                ok: false,
                event_id,
                message: "error: upstream did not acknowledge"@,
            },
        ),
        SendResult::Failed(e) => Err(ProxyErrorView::Publish(e@)),
        SendResult::Sent { accepted_by, errors } => Ok(
            PublishOutcomeView {
                ok: accepted_by@.len() > 0,
                event_id,
                message: if accepted_by@.len() > 0 {
                    ""@
                } else if errors@.len() > 0 {
                    errors@[0]@
                } else {
                    "error: upstream did not accept the event"@
                },
            },
        ),
    }
}

/// How making the connections of a proxy went.
#[derive(Debug, PartialEq)]
pub enum Setup {
    Ready,
    PoolFailed(String),
    ConnectFailed(String),
    HttpFailed(String),
}

/// What asking an upstream relay for its document gave.
#[derive(Debug, PartialEq)]
pub enum InfoReply {
    /// Nothing answered.
    Unreachable,
    /// An HTTP answer: whether its status was a success, and its body.
    Answer { success: bool, body: Vec<u8> },
}

/// The document in an HTTP answer.
pub open spec fn answered_doc(reply: InfoReply) -> Option<JsonView> {
    match reply {
        InfoReply::Unreachable => None,
        InfoReply::Answer { success, body } => if success {
            json_of_bytes(body@)
        } else {
            None
        },
    }
}

/// A proxy of one upstream relay.
#[derive(Debug)]
pub struct Proxy {
    pub upstream_url: String,
}

impl Proxy {
    /// A proxy of the relay at `upstream_url`, once its connections are made.
    pub fn new(upstream_url: String, setup: Setup) -> (r: Result<Proxy, ProxyError>)
        ensures
            match (r, setup) {
                (Ok(p), Setup::Ready) => p.upstream_url == upstream_url,
                (Err(e), Setup::PoolFailed(cause)) => e@ == ProxyErrorView::Init(cause@),
                (Err(e), Setup::ConnectFailed(cause)) => e@ == ProxyErrorView::Connect(cause@),
                (Err(e), Setup::HttpFailed(cause)) => e@ == ProxyErrorView::Init(
                    "http client: "@ + cause@,
                ),
                _ => false,
            },
    {
        match setup {
            Setup::Ready => Ok(Proxy { upstream_url }),
            Setup::PoolFailed(cause) => Err(ProxyError::Init(cause)),
            Setup::ConnectFailed(cause) => Err(ProxyError::Connect(cause)),
            Setup::HttpFailed(cause) => Err(
                ProxyError::Init("http client: ".to_owned().concat(cause.as_str())),
            ),
        }
    }

    /// Where the upstream relay's document is asked for.
    pub fn relay_info_origin(&self) -> (r: Result<String, ProxyError>)
        ensures
            match r {
                Ok(origin) => origin_of(self.upstream_url@) == Some(origin@),
                Err(e) => origin_of(self.upstream_url@) is None && e@ == ProxyErrorView::RelayInfo(
                    "upstream URL must be ws:// or wss://, got: "@ + self.upstream_url@,
                ),
            },
    {
        match nip11_origin(self.upstream_url.as_str()) {
            Some(origin) => Ok(origin),
            None => Err(
                ProxyError::RelayInfo(
                    "upstream URL must be ws:// or wss://, got: ".to_owned().concat(
                        self.upstream_url.as_str(),
                    ),
                ),
            ),
        }
    }

    /// The document for the client, from what the upstream relay answered. An
    /// upstream relay that answers nothing of use does not make the call fail.
    pub fn relay_info(&self, reply: InfoReply) -> (r: Result<Json, ProxyError>)
        ensures
            match r {
                Ok(doc) => origin_of(self.upstream_url@) is Some && doc@ == JsonView::Object(
                    info_of(answered_doc(reply)),
                ),
                Err(e) => origin_of(self.upstream_url@) is None && e@ == ProxyErrorView::RelayInfo(
                    "upstream URL must be ws:// or wss://, got: "@ + self.upstream_url@,
                ),
            },
    {
        match self.relay_info_origin() {
            Err(e) => Err(e),
            Ok(_) => {
                let doc: Option<Json> = match reply {
                    InfoReply::Unreachable => None,
                    InfoReply::Answer { success, body } => if success {
                        Json::parse(body.as_slice())
                    } else {
                        None
                    },
                };
                Ok(relay_info_doc(doc))
            },
        }
    }

    /// The outcome of publishing the event `event_id`.
    pub fn publish_event(&self, event_id: String, sent: SendResult) -> (r: Result<
        PublishOutcome,
        ProxyError,
    >)
        ensures
            match r {
                Ok(o) => outcome_of(event_id@, sent) == Ok::<PublishOutcomeView, ProxyErrorView>(
                    o@,
                ),
                Err(e) => outcome_of(event_id@, sent) == Err::<PublishOutcomeView, ProxyErrorView>(
                    e@,
                ),
            },
    {
        match sent {
            SendResult::TimedOut => Ok(
                PublishOutcome {
                    ok: false,
                    event_id,
                    message: "error: upstream did not acknowledge".to_owned(),
                },
            ),
            SendResult::Failed(e) => Err(ProxyError::Publish(e)),
            SendResult::Sent { accepted_by, errors } => {
                let ok: bool = accepted_by.len() > 0;
                let message: String = if ok {
                    "".to_owned()
                } else if errors.len() > 0 {
                    errors[0].as_str().to_owned()
                } else {
                    "error: upstream did not accept the event".to_owned()
                };
                Ok(PublishOutcome { ok, event_id, message })
            },
        }
    }
}

/// The event's own id comes back, and a published event comes without a message.
pub proof fn law_outcome_mirrors_the_event(event_id: Seq<char>, sent: SendResult)
    ensures
        outcome_of(event_id, sent) matches Ok(o) ==> o.event_id == event_id && (o.ok ==> o.message
            == ""@),
{
}

/// What a stream is told of a report of the pool: the messages of its own
/// subscription under the client's id, the end where the relay closes it or the pool
/// shuts down, and of everything else nothing.
pub proof fn law_reports_reach_their_stream(
    n: Notification,
    upstream_id: &str,
    client_sub: &str,
    r: Option<Forward>,
)
    requires
        call_ensures(map_notification, (&n, upstream_id, client_sub), r),
    ensures
        match n {
            Notification::Event { subscription_id, event } => if subscription_id@ == upstream_id@ {
                r matches Some(Forward::Continue(c)) && c@ == json_text(
                    JsonView::Array(
                        seq![JsonView::Str("EVENT"@), JsonView::Str(client_sub@), event@],
                    ),
                )
            } else {
                r is None
            },
            Notification::EndOfStoredEvents { subscription_id } => if subscription_id@
                == upstream_id@ {
                r matches Some(Forward::Continue(c)) && c@ == json_text(
                    JsonView::Array(seq![JsonView::Str("EOSE"@), JsonView::Str(client_sub@)]),
                )
            } else {
                r is None
            },
            Notification::Closed { subscription_id, message } => if subscription_id@
                == upstream_id@ {
                r matches Some(Forward::Stop(c)) && c@ == json_text(
                    JsonView::Array(
                        seq![
                            JsonView::Str("CLOSED"@),
                            JsonView::Str(client_sub@),
                            JsonView::Str(message@),
                        ],
                    ),
                )
            } else {
                r is None
            },
            Notification::Shutdown => r matches Some(Forward::Stop(c)) && c@ == json_text(
                JsonView::Array(
                    seq![
                        JsonView::Str("CLOSED"@),
                        JsonView::Str(client_sub@),
                        JsonView::Str("error: upstream relay pool shut down"@),
                    ],
                ),
            ),
            Notification::OtherMessage => r is None,
            Notification::FirstSeen => r is None,
        },
{
}

proof fn lemma_origin(upstream: Seq<char>, secure: bool, authority: Seq<char>, tail: Seq<char>)
    requires
        upstream == if secure {
            "wss://"@ + authority + tail
        } else {
            "ws://"@ + authority + tail
        },
        forall|i: int|
            0 <= i < authority.len() ==> #[trigger] authority[i] != '/' && authority[i] != '?'
                && authority[i] != '#',
        tail.len() > 0 ==> tail[0] == '/' || tail[0] == '?' || tail[0] == '#',
    ensures
        origin_of(upstream) == Some(
            if secure {
                "https://"@ + authority
            } else {
                "http://"@ + authority
            },
        ),
{
    reveal_strlit("wss://");
    reveal_strlit("ws://");
    let rest = authority + tail;
    let at = authority.len() as int;
    assert forall|i: int| 0 <= i < at implies !ends_authority(#[trigger] rest[i]) by {
        assert(rest[i] == authority[i]);
    }
    if tail.len() > 0 {
        assert(rest[at] == tail[0]);
    }
    lemma_authority_end_is(rest, at);
    assert(rest.take(at) =~= authority);
    if secure {
        assert("wss://"@.is_prefix_of(upstream)) by {
            assert(upstream.subrange(0, 6) =~= "wss://"@);
        }
        assert(upstream.skip(6) =~= rest);
    } else {
        assert("ws://"@.is_prefix_of(upstream)) by {
            assert(upstream.subrange(0, 5) =~= "ws://"@);
        }
        assert(!"wss://"@.is_prefix_of(upstream)) by {
            if "wss://"@.is_prefix_of(upstream) {
                assert(upstream.subrange(0, 6)[2] == "wss://"@[2]);
                assert(upstream[2] == "ws://"@[2]);
            }
        }
        assert(upstream.skip(5) =~= rest);
    }
}

/// The address of a WebSocket URL is its authority, up to the first slash, question
/// mark or hash sign, under the HTTP scheme that is as secure.
pub proof fn law_origin_is_the_authority(
    upstream: &str,
    secure: bool,
    authority: Seq<char>,
    tail: Seq<char>,
    r: Option<String>,
)
    requires
        call_ensures(nip11_origin, (upstream,), r),
        upstream@ == if secure {
            "wss://"@ + authority + tail
        } else {
            "ws://"@ + authority + tail
        },
        forall|i: int|
            0 <= i < authority.len() ==> #[trigger] authority[i] != '/' && authority[i] != '?'
                && authority[i] != '#',
        tail.len() > 0 ==> tail[0] == '/' || tail[0] == '?' || tail[0] == '#',
    ensures
        r matches Some(origin) && origin@ == if secure {
            "https://"@ + authority
        } else {
            "http://"@ + authority
        },
{
    lemma_origin(upstream@, secure, authority, tail);
}

/// A relay's document is asked for at the address of its URL, and only WebSocket
/// URLs have one; any other URL is refused by name.
pub proof fn law_document_is_asked_for_at_the_origin(
    proxy: Proxy,
    url: &str,
    origin: Option<String>,
    r: Result<String, ProxyError>,
)
    requires
        url@ == proxy.upstream_url@,
        call_ensures(nip11_origin, (url,), origin),
        call_ensures(Proxy::relay_info_origin, (&proxy,), r),
    ensures
        origin is Some <==> "ws://"@.is_prefix_of(url@) || "wss://"@.is_prefix_of(url@),
        origin matches Some(o) ==> (r matches Ok(at) && at@ == o@),
        origin is None ==> (r matches Err(ProxyError::RelayInfo(cause)) && cause@
            == "upstream URL must be ws:// or wss://, got: "@ + url@),
{
}

/// Whether `out` is the document `fields` with the server's identity laid over it:
/// the server's `software`, `version` and `proxy`, the document's own `software` and
/// `version` under `upstream` where it has any, and every other field as it was.
pub open spec fn is_overlay(
    out: Map<Seq<char>, JsonView>,
    fields: Map<Seq<char>, JsonView>,
) -> bool {
    &&& out.contains_pair("software"@, JsonView::Str("outlay"@))
    &&& out.contains_pair("version"@, JsonView::Str("0.3.1"@))
    &&& out.contains_pair("proxy"@, JsonView::Bool(true))
    &&& forall|key: Seq<char>|
        key != "software"@ && key != "version"@ && key != "proxy"@ && key != "upstream"@ ==> (
        #[trigger] out.contains_key(key) <==> fields.contains_key(key)) && (fields.contains_key(
            key,
        ) ==> out[key] == fields[key])
    &&& if fields.contains_key("software"@) || fields.contains_key("version"@) {
        &&& out.contains_key("upstream"@)
        &&& out["upstream"@] is Object
        &&& forall|key: Seq<char>|
            #![trigger out["upstream"@]->Object_0.contains_key(key)]
            (out["upstream"@]->Object_0.contains_key(key) <==> fields.contains_key(key) && (key
                == "software"@ || key == "version"@)) && (out["upstream"@]->Object_0.contains_key(
                key,
            ) ==> out["upstream"@]->Object_0[key] == fields[key])
    } else {
        &&& out.contains_key("upstream"@) <==> fields.contains_key("upstream"@)
        &&& fields.contains_key("upstream"@) ==> out["upstream"@] == fields["upstream"@]
    }
}

/// Whether `out` is the smallest document: the server's identity and NIP-01.
pub open spec fn is_minimum(out: Map<Seq<char>, JsonView>) -> bool {
    &&& out.contains_pair("software"@, JsonView::Str("outlay"@))
    &&& out.contains_pair("version"@, JsonView::Str("0.3.1"@))
    &&& out.contains_pair("proxy"@, JsonView::Bool(true))
    &&& out.contains_pair(
        "supported_nips"@,
        JsonView::Array(seq![JsonView::Number(json_number(1))]),
    )
    &&& forall|key: Seq<char>| #[trigger]
        out.contains_key(key) ==> key == "software"@ || key == "version"@ || key == "proxy"@ || key
            == "supported_nips"@
}

pub(crate) proof fn lemma_info(doc: Option<JsonView>)
    ensures
        match doc {
            Some(JsonView::Object(fields)) => is_overlay(info_of(doc), fields),
            _ => is_minimum(info_of(doc)),
        },
{
    law_identity_is_stamped(doc);
    match doc {
        Some(JsonView::Object(fields)) => {
            let out = info_of(doc);
            law_upstream_fields_pass_through(fields, "upstream"@);
            assert forall|key: Seq<char>|
                key != "software"@ && key != "version"@ && key != "proxy"@ && key
                    != "upstream"@ implies (#[trigger] out.contains_key(key)
                <==> fields.contains_key(key)) && (fields.contains_key(key) ==> out[key]
                == fields[key]) by {
                law_upstream_fields_pass_through(fields, key);
            }
        },
        _ => {},
    }
}

/// Every successful answer whose body is a JSON object is the document that the
/// client gets, with the server's identity laid over it; anything else that comes,
/// and nothing at all, gives the smallest document. A URL without a WebSocket scheme
/// is refused.
pub proof fn law_relay_info_is_the_upstream_document(
    proxy: Proxy,
    reply: InfoReply,
    r: Result<Json, ProxyError>,
)
    requires
        call_ensures(Proxy::relay_info, (&proxy, reply), r),
    ensures
        r is Ok <==> "ws://"@.is_prefix_of(proxy.upstream_url@) || "wss://"@.is_prefix_of(
            proxy.upstream_url@,
        ),
        r matches Err(e) ==> (e matches ProxyError::RelayInfo(cause) && cause@
            == "upstream URL must be ws:// or wss://, got: "@ + proxy.upstream_url@),
        r matches Ok(doc) ==> doc@ is Object && match reply {
            InfoReply::Answer { success: true, body } => match json_of_bytes(body@) {
                Some(JsonView::Object(fields)) => is_overlay(doc@->Object_0, fields),
                _ => is_minimum(doc@->Object_0),
            },
            _ => is_minimum(doc@->Object_0),
        },
{
    match reply {
        InfoReply::Answer { success: true, body } => lemma_info(json_of_bytes(body@)),
        _ => lemma_info(None),
    }
}

/// The document for the client is made of the upstream relay's own where that is an
/// object, and the smallest one otherwise.
pub proof fn law_document_is_overlaid(
    doc: Json,
    made: Json,
    overlaid: Json,
    without: Json,
    smallest: Json,
)
    requires
        call_ensures(relay_info_doc, (Some(doc),), made),
        call_ensures(relay_info_doc, (None,), without),
        call_ensures(synthesized_proxy_info, (), smallest),
        doc@ is Object ==> call_ensures(overlay_proxy_info, (doc,), overlaid),
    ensures
        made@ is Object,
        doc@ is Object ==> is_overlay(made@->Object_0, doc@->Object_0),
        doc@ is Object ==> overlaid@ == made@,
        !(doc@ is Object) ==> is_minimum(made@->Object_0),
        without@ == smallest@,
        smallest@ is Object && is_minimum(smallest@->Object_0),
{
    lemma_info(Some(doc@));
    lemma_info(None);
}

/// An event counts as published exactly where some relay took it, and comes back
/// under its own id. Of one that none took the client hears the first objection, of
/// one that nobody answered for in time that it was not acknowledged, and an event
/// that could not be sent is an error.
pub proof fn law_published_where_some_relay_took_it(
    proxy: Proxy,
    event_id: String,
    sent: SendResult,
    r: Result<PublishOutcome, ProxyError>,
)
    requires
        call_ensures(Proxy::publish_event, (&proxy, event_id, sent), r),
    ensures
        r is Err <==> sent is Failed,
        r matches Ok(o) ==> o.event_id@ == event_id@,
        sent is TimedOut ==> (r matches Ok(o) && !o.ok && o.message@
            == "error: upstream did not acknowledge"@),
        sent matches SendResult::Failed(cause) ==> (r matches Err(ProxyError::Publish(told))
            && told@ == cause@),
        sent matches SendResult::Sent { accepted_by, errors } ==> (r matches Ok(o) && (o.ok
            <==> accepted_by@.len() > 0) && (o.ok ==> o.message@ == ""@) && (!o.ok && errors@.len()
            > 0 ==> o.message@ == errors@[0]@) && (!o.ok && errors@.len() == 0 ==> o.message@
            == "error: upstream did not accept the event"@)),
{
}

/// The result of a call of `publish_event` has three fields: whether the event was
/// taken, its id and the message.
pub proof fn law_outcome_has_three_fields(o: PublishOutcome, r: Json)
    requires
        call_ensures(PublishOutcome::to_json, (&o,), r),
    ensures
        r@ is Object,
        r@->Object_0.dom() == set!["ok"@, "event_id"@, "message"@],
        r@->Object_0["ok"@] == JsonView::Bool(o.ok),
        r@->Object_0["event_id"@] == JsonView::Str(o.event_id@),
        r@->Object_0["message"@] == JsonView::Str(o.message@),
{
    reveal_strlit("ok");
    reveal_strlit("event_id");
    reveal_strlit("message");
    assert("ok"@.len() == 2 && "event_id"@.len() == 8 && "message"@.len() == 7);
    assert(r@->Object_0.dom() =~= set!["ok"@, "event_id"@, "message"@]);
}

/// A proxy is there once its connections are; what stopped it is told otherwise.
pub proof fn law_proxy_needs_its_connections(
    upstream_url: String,
    setup: Setup,
    r: Result<Proxy, ProxyError>,
)
    requires
        call_ensures(Proxy::new, (upstream_url, setup), r),
    ensures
        r is Ok <==> setup is Ready,
        r matches Ok(proxy) ==> proxy.upstream_url == upstream_url,
        setup matches Setup::PoolFailed(cause) ==> (r matches Err(ProxyError::Init(told)) && told@
            == cause@),
        setup matches Setup::ConnectFailed(cause) ==> (r matches Err(ProxyError::Connect(told))
            && told@ == cause@),
        setup matches Setup::HttpFailed(cause) ==> (r matches Err(ProxyError::Init(told)) && told@
            == "http client: "@ + cause@),
{
}

/// What the client is told of an error says what failed, and ends with the cause
/// where there is one.
pub proof fn law_errors_name_their_cause(e: ProxyError, r: String)
    requires
        call_ensures(ProxyError::message, (&e,), r),
    ensures
        r@ == match e {
            ProxyError::Init(cause) => "upstream relay pool init failed: "@ + cause@,
            ProxyError::Connect(cause) => "upstream relay connect failed: "@ + cause@,
            ProxyError::EmptyFilters => "subscribe filters must be non-empty"@,
            ProxyError::Subscribe(cause) => "upstream subscribe failed: "@ + cause@,
            ProxyError::Publish(cause) => "upstream publish failed: "@ + cause@,
            ProxyError::PublishTimeout => "upstream did not acknowledge the event within timeout"@,
            ProxyError::RelayInfo(cause) => "relay_info: "@ + cause@,
        },
{
}

} // verus!
