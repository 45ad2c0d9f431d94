//! A server's information document over HTTP, for machines and for people.

use vstd::prelude::*;
use vstd::utf8::encode_utf8;

use crate::json::{
    entries_view, is_integer_text, json_number, json_of_bytes, json_pretty, leaf_text,
    lemma_decimal_is_integer, number, plain_within, reads_as, reserved_key, str_field, values, Json, JsonView,
};
use crate::server::proxy::{push_field, str_json, OUTLAY_VERSION};
use crate::shim::config::{public_url_of, ShimConfig, ShimConfigView};
use crate::shim::path::{parse_path, path_of, ParsedPath, ParsedPathView, PathError, PathErrorView};
use crate::text::{contains, contains_of, opt_str, texts, to_chars};

verus! {

/// The media type of an information document.
pub const NIP11_JSON: &'static str = "application/nostr+json";

/// An HTTP answer.
#[derive(Debug, PartialEq)]
pub struct HttpReply {
    pub status: u16,
    pub content_type: &'static str,
    /// Whether a page from anywhere may read the answer.
    pub any_origin: bool,
    pub body: String,
}

pub struct HttpReplyView {
    pub status: u16,
    pub content_type: Seq<char>,
    pub any_origin: bool,
    pub body: Seq<char>,
}

impl View for HttpReply {
    type V = HttpReplyView;

    open spec fn view(&self) -> HttpReplyView {
        HttpReplyView {
            status: self.status,
            content_type: self.content_type@,
            any_origin: self.any_origin,
            body: self.body@,
        }
    }
}

/// How a character stands in an HTML page.
pub open spec fn esc_char(c: char) -> Seq<char> {
    if c == '&' {
        "&amp;"@
    } else if c == '<' {
        "&lt;"@
    } else if c == '>' {
        "&gt;"@
    } else if c == '"' {
        "&quot;"@
    } else {
        seq![c]
    }
}

/// A text as it stands in an HTML page.
pub open spec fn esc_of(s: Seq<char>) -> Seq<char>
    decreases s.len(),
{
    if s.len() == 0 {
        Seq::empty()
    } else {
        esc_of(s.drop_last()) + esc_char(s.last())
    }
}

/// A text as it stands in an HTML page.
pub fn esc(s: &str) -> (r: String)
    ensures
        r@ == esc_of(s@),
{
    let chars: Vec<char> = to_chars(s);
    let size: usize = chars.len();
    let mut out: String = String::new();
    assert(s@.take(0) =~= Seq::empty());
    for i in 0..size
        invariant
            size == s@.len(),
            chars@ == s@,
            out@ == esc_of(s@.take(i as int)),
    {
        let c: char = chars[i];
        assert(s@.take(i + 1).drop_last() =~= s@.take(i as int));
        assert(s@.take(i + 1).last() == c);
        if c == '&' {
            out.append("&amp;");
        } else if c == '<' {
            out.append("&lt;");
        } else if c == '>' {
            out.append("&gt;");
        } else if c == '"' {
            out.append("&quot;");
        } else {
            out.push(c);
            assert(out@ =~= esc_of(s@.take(i as int)) + seq![c]);
        }
    }
    assert(s@.take(size as int) =~= s@);
    out
}

/// No text of a document opens a tag or ends an attribute: of a text as it
/// stands in a page, no character is a bracket or a quote.
pub proof fn law_text_stays_text(s: Seq<char>, i: int)
    requires
        0 <= i < esc_of(s).len(),
    ensures
        esc_of(s)[i] != '<',
        esc_of(s)[i] != '>',
        esc_of(s)[i] != '"',
    decreases s.len(),
{
    if s.len() > 0 {
        let before = esc_of(s.drop_last());
        if i < before.len() {
            law_text_stays_text(s.drop_last(), i);
        } else {
            reveal_strlit("&amp;");
            reveal_strlit("&lt;");
            reveal_strlit("&gt;");
            reveal_strlit("&quot;");
            assert(esc_of(s)[i] == esc_char(s.last())[i - before.len()]);
        }
    }
}

proof fn lemma_esc_from_the_front(s: Seq<char>)
    requires
        s.len() > 0,
    ensures
        esc_of(s) == esc_char(s[0]) + esc_of(s.drop_first()),
    decreases s.len(),
{
    if s.len() == 1 {
        assert(s.drop_last() =~= Seq::empty());
        assert(s.drop_first() =~= Seq::empty());
        assert(esc_of(s) =~= esc_char(s[0]) + esc_of(s.drop_first()));
    } else {
        lemma_esc_from_the_front(s.drop_last());
        assert(s.drop_last().drop_first() =~= s.drop_first().drop_last());
        assert(esc_of(s) =~= esc_char(s[0]) + esc_of(s.drop_first()));
    }
}

/// Two texts that look the same in a page are the same.
pub proof fn law_pages_tell_texts_apart(a: Seq<char>, b: Seq<char>)
    requires
        esc_of(a) == esc_of(b),
    ensures
        a == b,
    decreases a.len(),
{
    reveal_strlit("&amp;");
    reveal_strlit("&lt;");
    reveal_strlit("&gt;");
    reveal_strlit("&quot;");
    if a.len() > 0 {
        lemma_esc_from_the_front(a);
    }
    if b.len() > 0 {
        lemma_esc_from_the_front(b);
    }
    if a.len() > 0 && b.len() > 0 {
        let whole = esc_of(a);
        let x = esc_char(a[0]);
        let y = esc_char(b[0]);
        assert(whole[0] == x[0] && whole[0] == y[0]);
        if x.len() > 1 && y.len() > 1 {
            assert(whole[1] == x[1] && whole[1] == y[1]);
        }
        assert(a[0] == b[0]);
        assert(esc_of(a.drop_first()) =~= whole.skip(x.len() as int));
        assert(esc_of(b.drop_first()) =~= whole.skip(y.len() as int));
        law_pages_tell_texts_apart(a.drop_first(), b.drop_first());
        assert(a =~= seq![a[0]] + a.drop_first());
        assert(b =~= seq![b[0]] + b.drop_first());
    } else if a.len() > 0 {
        assert(esc_of(a).len() > 0);
    } else if b.len() > 0 {
        assert(esc_of(b).len() > 0);
    } else {
        assert(a =~= b);
    }
}

/// The link that opens a server in a web client.
pub open spec fn jumble_button(relay: Option<Seq<char>>) -> Seq<char> {
    match relay {
        Some(relay) => "<p><a class=\"btn\" href=\"https://jumble.social/?r="@ + esc_of(relay)
            + "\" target=\"_blank\" rel=\"noopener noreferrer\">Open feed in Jumble ↗</a></p>"@,
        None => ""@,
    }
}

/// The name that a document gives its relay.
pub open spec fn doc_name(doc: JsonView) -> Seq<char> {
    match str_field(doc, "name"@) {
        Some(name) => name,
        None => "Nostr relay"@,
    }
}

/// The page that shows a document.
pub open spec fn html_of(doc: JsonView, jumble: Option<Seq<char>>) -> Seq<char> {
    let name = esc_of(doc_name(doc));
    "<!doctype html><html lang=\"en\"><head><meta charset=\"utf-8\"><title>"@ + name
        + "</title><style>body{font-family:system-ui,sans-serif;max-width:46rem;margin:2rem auto;padding:0 1rem}.btn{display:inline-block;padding:.5rem 1rem;background:#6c4efc;color:#fff;text-decoration:none;border-radius:.5rem}pre{background:#f5f5f5;padding:1rem;overflow:auto;border-radius:.5rem}</style></head><body><h1>"@
        + name
        + "</h1><p>outlay-shim bridge. Nostr clients: request this URL with <code>Accept: application/nostr+json</code> for the NIP-11 document.</p>"@
        + jumble_button(jumble) + "<pre>"@ + esc_of(json_pretty(doc)) + "</pre></body></html>"@
}

/// The page that shows a document.
pub fn render_html(doc: &Json, jumble: Option<&str>) -> (r: String)
    ensures
        r@ == html_of(doc@, opt_str(jumble)),
{
    let name: String = match doc.get_str("name") {
        Some(name) => esc(name),
        None => esc("Nostr relay"),
    };
    let button: String = match jumble {
        Some(relay) => "<p><a class=\"btn\" href=\"https://jumble.social/?r=".to_owned().concat(
            esc(relay).as_str(),
        ).concat("\" target=\"_blank\" rel=\"noopener noreferrer\">Open feed in Jumble ↗</a></p>"),
        None => "".to_owned(),
    };
    "<!doctype html><html lang=\"en\"><head><meta charset=\"utf-8\"><title>".to_owned().concat(
        name.as_str(),
    ).concat(
        "</title><style>body{font-family:system-ui,sans-serif;max-width:46rem;margin:2rem auto;padding:0 1rem}.btn{display:inline-block;padding:.5rem 1rem;background:#6c4efc;color:#fff;text-decoration:none;border-radius:.5rem}pre{background:#f5f5f5;padding:1rem;overflow:auto;border-radius:.5rem}</style></head><body><h1>",
    ).concat(name.as_str()).concat(
        "</h1><p>outlay-shim bridge. Nostr clients: request this URL with <code>Accept: application/nostr+json</code> for the NIP-11 document.</p>",
    ).concat(button.as_str()).concat("<pre>").concat(esc(doc.pretty().as_str()).as_str()).concat(
        "</pre></body></html>",
    )
}

/// Whether a client asks for the document itself.
pub open spec fn wants_json(accept: Option<Seq<char>>) -> bool {
    match accept {
        Some(s) => contains_of(s, NIP11_JSON@),
        None => false,
    }
}

/// A document as the client asked for it: as it is, or as a page.
pub open spec fn rendered(
    doc: JsonView,
    accept: Option<Seq<char>>,
    jumble: Option<Seq<char>>,
) -> HttpReplyView {
    if wants_json(accept) {
        HttpReplyView {
            status: 200,
            content_type: NIP11_JSON@,
            any_origin: true,
            body: json_pretty(doc),
        }
    } else {
        HttpReplyView {
            status: 200,
            content_type: "text/html; charset=utf-8"@,
            any_origin: false,
            body: html_of(doc, jumble),
        }
    }
}

/// A document as the client asked for it. `accept` is the client's `Accept`
/// header, where it is text; `jumble` is a relay for the page to link to.
pub fn render(doc: &Json, accept: Option<&str>, jumble: Option<&str>) -> (r: HttpReply)
    ensures
        r@ == rendered(doc@, opt_str(accept), opt_str(jumble)),
        wants_json(opt_str(accept)) ==> reads_as(r.body@, doc@),
{
    let as_json: bool = match accept {
        Some(s) => contains(s, NIP11_JSON),
        None => false,
    };
    if as_json {
        HttpReply {
            status: 200,
            content_type: NIP11_JSON,
            any_origin: true,
            body: doc.pretty(),
        }
    } else {
        HttpReply {
            status: 200,
            content_type: "text/html; charset=utf-8",
            any_origin: false,
            body: render_html(doc, jumble),
        }
    }
}

/// A plain text.
pub open spec fn plain_of(status: u16, message: Seq<char>) -> HttpReplyView {
    HttpReplyView {
        status,
        content_type: "text/plain; charset=utf-8"@,
        any_origin: false,
        body: message,
    }
}

/// A plain text.
pub fn plain(status: u16, message: &str) -> (r: HttpReply)
    ensures
        r@ == plain_of(status, message@),
{
    HttpReply {
        status,
        content_type: "text/plain; charset=utf-8",
        any_origin: false,
        body: message.to_owned(),
    }
}

/// The document of the bridge itself.
pub open spec fn root_doc() -> Map<Seq<char>, JsonView> {
    Map::empty().insert("name"@, JsonView::Str("outlay-shim"@)).insert(
        "software"@,
        JsonView::Str("outlay-shim"@),
    ).insert("version"@, JsonView::Str(OUTLAY_VERSION@)).insert(
        "supported_nips"@,
        JsonView::Array(
            seq![JsonView::Number(json_number(1)), JsonView::Number(json_number(11))],
        ),
    ).insert(
        "limitation"@,
        JsonView::Object(Map::empty().insert("bridge"@, JsonView::Bool(true))),
    ).insert(
        "description"@,
        JsonView::Str(
            "Local NIP-01 bridge to CVM-exposed outlay servers. Connect at /<server-pubkey> (hex, npub, or nprofile)."@,
        ),
    )
}

proof fn lemma_root_doc_is_plain()
    requires
        is_integer_text(leaf_text(JsonView::Number(json_number(1)))),
        is_integer_text(leaf_text(JsonView::Number(json_number(11)))),
    ensures
        plain_within(JsonView::Object(root_doc()), 127),
{
    reveal_strlit("$serde_json::private::RawValue");
    reveal_strlit("bridge");
    reveal_strlit("name");
    reveal_strlit("software");
    reveal_strlit("version");
    reveal_strlit("supported_nips");
    reveal_strlit("limitation");
    reveal_strlit("description");
    assert(reserved_key().len() == 30);
    assert("bridge"@.len() < 30 && "name"@.len() < 30 && "software"@.len() < 30 && "version"@.len()
        < 30 && "supported_nips"@.len() < 30 && "limitation"@.len() < 30 && "description"@.len()
        < 30);
    let nips = JsonView::Array(
        seq![JsonView::Number(json_number(1)), JsonView::Number(json_number(11))],
    );
    assert forall|i: int| 0 <= i < nips->Array_0.len() implies plain_within(
        #[trigger] nips->Array_0[i],
        125,
    ) by {
        assert(nips->Array_0[i] is Number);
    }
    assert(plain_within(nips, 126));
    let limits = Map::<Seq<char>, JsonView>::empty().insert("bridge"@, JsonView::Bool(true));
    assert forall|k: Seq<char>| #[trigger] limits.contains_key(k) implies plain_within(
        limits[k],
        125,
    ) by {
        assert(limits[k] is Bool);
    }
    assert(plain_within(JsonView::Object(limits), 126));
    let doc = root_doc();
    assert forall|k: Seq<char>| #[trigger] doc.contains_key(k) implies plain_within(
        doc[k],
        126,
    ) by {
        assert(doc[k] is Str || doc[k] == nips || doc[k] == JsonView::Object(limits));
    }
}

/// The document of the bridge itself.
pub fn synth_root() -> (r: Json)
    ensures
        r@ == JsonView::Object(root_doc()),
        plain_within(r@, 127),
{
    broadcast use {crate::json::lemma_object_view, crate::json::lemma_array_view};

    let nips: Vec<Json> = vec![Json::Number(number(1)), Json::Number(number(11))];
    assert(values(nips@) =~= seq![
        JsonView::Number(json_number(1)),
        JsonView::Number(json_number(11)),
    ]);
    let mut limitation: Vec<(String, Json)> = Vec::new();
    assert(entries_view(limitation@) =~= Seq::empty());
    push_field(&mut limitation, "bridge", Json::Bool(true));
    let mut entries: Vec<(String, Json)> = Vec::new();
    assert(entries_view(entries@) =~= Seq::empty());
    push_field(&mut entries, "name", str_json("outlay-shim"));
    push_field(&mut entries, "software", str_json("outlay-shim"));
    push_field(&mut entries, "version", str_json(OUTLAY_VERSION));
    push_field(&mut entries, "supported_nips", Json::Array(nips));
    push_field(&mut entries, "limitation", Json::Object(limitation));
    push_field(
        &mut entries,
        "description",
        str_json(
            "Local NIP-01 bridge to CVM-exposed outlay servers. Connect at /<server-pubkey> (hex, npub, or nprofile).",
        ),
    );
    proof {
        lemma_decimal_is_integer(1);
        lemma_decimal_is_integer(11);
        lemma_root_doc_is_plain();
    }
    Json::Object(entries)
}

/// `GET /`: the document of the bridge itself.
pub fn serve_root(accept: Option<&str>) -> (r: HttpReply)
    ensures
        r@ == rendered(JsonView::Object(root_doc()), opt_str(accept), None),
        wants_json(opt_str(accept)) ==> json_of_bytes(encode_utf8(r.body@)) == Some(
            JsonView::Object(root_doc()),
        ),
{
    render(&synth_root(), accept, None)
}

/// What asking a server for its document gave.
#[derive(Debug, PartialEq)]
pub enum Fetched {
    /// No transport leads to the server.
    NoTransport(String),
    /// The call failed.
    CallFailed(String),
    /// The call's result, if it has one.
    Doc(Option<Json>),
}

/// The relay URL under which the bridge serves a server.
pub open spec fn bridge_url(cfg: ShimConfigView, hex: Seq<char>) -> Option<Seq<char>> {
    match public_url_of(cfg) {
        Some(url) => Some(url + "/"@ + hex),
        None => None,
    }
}

/// The document of a server, from what its call gave.
pub open spec fn doc_of(doc: Option<Json>) -> JsonView {
    match doc {
        Some(d) => d@,
        None => JsonView::Null,
    }
}

/// The answer for a server, from what asking it gave.
pub open spec fn server_reply(
    cfg: ShimConfigView,
    accept: Option<Seq<char>>,
    hex: Seq<char>,
    fetched: Fetched,
) -> HttpReplyView {
    match fetched {
        Fetched::NoTransport(e) => plain_of(502, e@),
        Fetched::CallFailed(e) => plain_of(502, "relay_info: "@ + e@),
        Fetched::Doc(doc) => rendered(doc_of(doc), accept, bridge_url(cfg, hex)),
    }
}

/// The answer for a server, from what asking it gave.
pub fn serve_server(
    cfg: &ShimConfig,
    accept: Option<&str>,
    parsed: &ParsedPath,
    fetched: Fetched,
) -> (r: HttpReply)
    ensures
        r@ == server_reply(cfg@, opt_str(accept), parsed.hex@, fetched),
        wants_json(opt_str(accept)) ==> (fetched matches Fetched::Doc(doc) ==> reads_as(
            r.body@,
            doc_of(doc),
        )),
{
    match fetched {
        Fetched::NoTransport(e) => plain(502, e.as_str()),
        Fetched::CallFailed(e) => plain(502, "relay_info: ".to_owned().concat(e.as_str()).as_str()),
        Fetched::Doc(doc) => {
            let doc: Json = match doc {
                Some(d) => d,
                None => Json::Null,
            };
            match cfg.public_url() {
                Some(url) => {
                    let link: String = url.to_owned().concat("/").concat(parsed.hex.as_str());
                    render(&doc, accept, Some(link.as_str()))
                },
                None => render(&doc, accept, None),
            }
        },
    }
}

/// The server that a request's path names, or the answer to a path that names
/// none.
pub fn requested_server(pubkey: &str) -> (r: Result<ParsedPath, HttpReply>)
    ensures
        match r {
            Ok(p) => path_of(pubkey@) == Ok::<ParsedPathView, PathErrorView>(p@),
            Err(reply) => path_of(pubkey@) matches Err(e) && reply@ == plain_of(
                400,
                PathError::message_of(e),
            ),
        },
{
    match parse_path(pubkey) {
        Ok(p) => Ok(p),
        Err(e) => Err(plain(400, e.message().as_str())),
    }
}

/// `GET /<pubkey>`: a path that names no server is refused, whatever was
/// fetched; for a server, what was fetched of it is served.
pub fn serve_pubkey(
    cfg: &ShimConfig,
    accept: Option<&str>,
    pubkey: &str,
    fetched: Fetched,
) -> (r: HttpReply)
    ensures
        r@ == match path_of(pubkey@) {
            Ok(p) => server_reply(cfg@, opt_str(accept), p.hex, fetched),
            Err(e) => plain_of(400, PathError::message_of(e)),
        },
        path_of(pubkey@) is Ok && wants_json(opt_str(accept)) ==> (fetched matches Fetched::Doc(doc)
            ==> reads_as(r.body@, doc_of(doc))),
{
    match requested_server(pubkey) {
        Ok(parsed) => serve_server(cfg, accept, &parsed, fetched),
        Err(reply) => reply,
    }
}

/// Every answer with a document of its own media type can be read by any page,
/// and no other answer can.
pub proof fn law_documents_are_open_to_all(
    doc: JsonView,
    accept: Option<Seq<char>>,
    jumble: Option<Seq<char>>,
)
    ensures
        rendered(doc, accept, jumble).any_origin == wants_json(accept),
        wants_json(accept) ==> rendered(doc, accept, jumble).content_type == NIP11_JSON@,
        rendered(doc, accept, jumble).status == 200,
{
}

/// A text is shown character by character: an ampersand, a bracket or a double quote
/// by its entity, and any other character as it is.
pub proof fn law_texts_are_shown_character_by_character(
    s: &str,
    front: &str,
    back: &str,
    r: String,
    before: String,
    after: String,
)
    requires
        call_ensures(esc, (s,), r),
        call_ensures(esc, (front,), before),
        call_ensures(esc, (back,), after),
    ensures
        s@ == front@ + back@ ==> r@ == before@ + after@,
        s@.len() == 0 ==> r@.len() == 0,
        s@.len() == 1 ==> r@ == if s@[0] == '&' {
            "&amp;"@
        } else if s@[0] == '<' {
            "&lt;"@
        } else if s@[0] == '>' {
            "&gt;"@
        } else if s@[0] == '"' {
            "&quot;"@
        } else {
            s@
        },
{
    lemma_esc_adds(front@, back@);
    if s@.len() == 1 {
        let none = s@.drop_last();
        assert(none =~= Seq::empty());
        assert(esc_of(none) =~= Seq::empty());
        assert(esc_of(s@) =~= esc_char(s@[0]));
        assert(s@ =~= seq![s@[0]]);
    }
}

proof fn lemma_esc_adds(a: Seq<char>, b: Seq<char>)
    ensures
        esc_of(a + b) == esc_of(a) + esc_of(b),
    decreases b.len(),
{
    if b.len() == 0 {
        assert(a + b =~= a);
        assert(esc_of(a) + esc_of(b) =~= esc_of(a));
    } else {
        assert((a + b).drop_last() =~= a + b.drop_last());
        assert((a + b).last() == b.last());
        lemma_esc_adds(a, b.drop_last());
        assert(esc_of(a + b) =~= esc_of(a) + esc_of(b));
    }
}

/// Whether `part` stands somewhere in `s`.
pub open spec fn stands_in(part: Seq<char>, s: Seq<char>) -> bool {
    exists|before: Seq<char>, after: Seq<char>| s == #[trigger] (before + part + after)
}

/// A page shows the document: its name as title and heading, the whole of it indented,
/// and a link to the relay where there is one.
pub proof fn law_pages_show_the_document(
    doc: Json,
    jumble: Option<&str>,
    name: &str,
    indented: String,
    text: &str,
    shown_name: String,
    shown_doc: String,
    shown_relay: String,
    r: String,
)
    requires
        call_ensures(render_html, (&doc, jumble), r),
        call_ensures(Json::pretty, (&doc,), indented),
        text@ == indented@,
        name@ == if doc@ is Object && doc@->Object_0.contains_key("name"@)
            && doc@->Object_0["name"@] is Str {
            doc@->Object_0["name"@]->Str_0
        } else {
            "Nostr relay"@
        },
        call_ensures(esc, (name,), shown_name),
        call_ensures(esc, (text,), shown_doc),
        jumble matches Some(relay) ==> call_ensures(esc, (relay,), shown_relay),
    ensures
        r@ == "<!doctype html><html lang=\"en\"><head><meta charset=\"utf-8\"><title>"@ + shown_name@
            + "</title><style>body{font-family:system-ui,sans-serif;max-width:46rem;margin:2rem auto;padding:0 1rem}.btn{display:inline-block;padding:.5rem 1rem;background:#6c4efc;color:#fff;text-decoration:none;border-radius:.5rem}pre{background:#f5f5f5;padding:1rem;overflow:auto;border-radius:.5rem}</style></head><body><h1>"@
            + shown_name@
            + "</h1><p>outlay-shim bridge. Nostr clients: request this URL with <code>Accept: application/nostr+json</code> for the NIP-11 document.</p>"@
            + if jumble is Some {
            "<p><a class=\"btn\" href=\"https://jumble.social/?r="@ + shown_relay@
                + "\" target=\"_blank\" rel=\"noopener noreferrer\">Open feed in Jumble ↗</a></p>"@
        } else {
            ""@
        } + "<pre>"@ + shown_doc@ + "</pre></body></html>"@,
{
    assert(doc_name(doc@) == name@);
}

/// A client that accepts the document's own media type gets the document, readable
/// from anywhere; any other gets the page.
pub proof fn law_documents_are_served_as_asked(
    doc: Json,
    accept: Option<&str>,
    jumble: Option<&str>,
    r: HttpReply,
    indented: String,
    page: String,
)
    requires
        call_ensures(render, (&doc, accept, jumble), r),
        call_ensures(Json::pretty, (&doc,), indented),
        call_ensures(render_html, (&doc, jumble), page),
    ensures
        r.status == 200,
        accepts_document(opt_str(accept)) ==> r.content_type@ == "application/nostr+json"@
            && r.any_origin && r.body@ == indented@,
        !accepts_document(opt_str(accept)) ==> r.content_type@ == "text/html; charset=utf-8"@
            && !r.any_origin && r.body@ == page@,
{
    lemma_accepts(opt_str(accept));
}

/// Whether a client's header names the media type of the document.
pub open spec fn accepts_document(accept: Option<Seq<char>>) -> bool {
    accept is Some && stands_in("application/nostr+json"@, accept->Some_0)
}

proof fn lemma_accepts(accept: Option<Seq<char>>)
    ensures
        accepts_document(accept) <==> wants_json(accept),
{
    if let Some(s) = accept {
        let part = NIP11_JSON@;
        if contains_of(s, part) {
            let i = choose|i: int|
                0 <= i <= s.len() - part.len() && #[trigger] s.subrange(i, i + part.len()) == part;
            assert(s =~= s.take(i) + part + s.skip(i + part.len()));
        }
        if stands_in(part, s) {
            let (before, after) = choose|before: Seq<char>, after: Seq<char>|
                s == #[trigger] (before + part + after);
            let i = before.len() as int;
            assert(s.subrange(i, i + part.len()) =~= part);
        }
    }
}

/// A plain text is what it says, with the status that is given.
pub proof fn law_plain_texts(status: u16, message: &str, r: HttpReply)
    requires
        call_ensures(plain, (status, message), r),
    ensures
        r.status == status,
        r.body@ == message@,
        r.content_type@ == "text/plain; charset=utf-8"@,
        !r.any_origin,
{
}

/// The bridge's document names the bridge, its version, the NIPs that it speaks, that
/// it is a bridge and how to use it, and nothing else.
pub proof fn law_bridge_describes_itself(r: Json)
    requires
        call_ensures(synth_root, (), r),
    ensures
        r@ is Object,
        r@->Object_0.dom() == set![
            "name"@,
            "software"@,
            "version"@,
            "supported_nips"@,
            "limitation"@,
            "description"@,
        ],
        r@->Object_0["name"@] == JsonView::Str("outlay-shim"@),
        r@->Object_0["software"@] == JsonView::Str("outlay-shim"@),
        r@->Object_0["version"@] == JsonView::Str("0.3.1"@),
        r@->Object_0["supported_nips"@] == JsonView::Array(
            seq![JsonView::Number(json_number(1)), JsonView::Number(json_number(11))],
        ),
        r@->Object_0["limitation"@] is Object,
        r@->Object_0["limitation"@]->Object_0.dom() == set!["bridge"@],
        r@->Object_0["limitation"@]->Object_0["bridge"@] == JsonView::Bool(true),
        r@->Object_0["description"@] == JsonView::Str(
            "Local NIP-01 bridge to CVM-exposed outlay servers. Connect at /<server-pubkey> (hex, npub, or nprofile)."@,
        ),
{
    reveal_strlit("name");
    reveal_strlit("software");
    reveal_strlit("version");
    reveal_strlit("supported_nips");
    reveal_strlit("limitation");
    reveal_strlit("description");
    assert("name"@.len() == 4 && "software"@.len() == 8 && "version"@.len() == 7
        && "supported_nips"@.len() == 14 && "limitation"@.len() == 10 && "description"@.len() == 11);
    assert(r@->Object_0.dom() =~= set![
        "name"@,
        "software"@,
        "version"@,
        "supported_nips"@,
        "limitation"@,
        "description"@,
    ]);
    assert(r@->Object_0["limitation"@]->Object_0.dom() =~= set!["bridge"@]);
}

/// Whether two answers say the same.
pub open spec fn same_reply(a: HttpReply, b: HttpReply) -> bool {
    a.status == b.status && a.content_type@ == b.content_type@ && a.any_origin == b.any_origin
        && a.body@ == b.body@
}

/// At `/` the bridge's own document is served, without a link.
pub proof fn law_root_serves_the_bridges_document(
    accept: Option<&str>,
    doc: Json,
    r: HttpReply,
    served: HttpReply,
)
    requires
        call_ensures(serve_root, (accept,), r),
        call_ensures(synth_root, (), doc),
        call_ensures(render, (&doc, accept, None), served),
    ensures
        same_reply(r, served),
{
}

/// A server's document is served as it came, with a link to the server at the bridge
/// where the bridge has a public URL; that no transport leads to the server, or that
/// the call failed, is told with the reason.
pub proof fn law_servers_documents_are_served(
    cfg: ShimConfig,
    accept: Option<&str>,
    parsed: ParsedPath,
    fetched: Fetched,
    doc: Json,
    link: &str,
    linked: HttpReply,
    bare: HttpReply,
    r: HttpReply,
)
    requires
        call_ensures(serve_server, (&cfg, accept, &parsed, fetched), r),
        fetched matches Fetched::Doc(Some(d)) ==> doc@ == d@,
        fetched matches Fetched::Doc(None) ==> doc@ is Null,
        cfg.public_urls@.len() > 0 ==> link@ == cfg.public_urls@[0]@ + "/"@ + parsed.hex@,
        call_ensures(render, (&doc, accept, Some(link)), linked),
        call_ensures(render, (&doc, accept, None), bare),
    ensures
        fetched matches Fetched::NoTransport(e) ==> r.status == 502 && r.body@ == e@
            && r.content_type@ == "text/plain; charset=utf-8"@,
        fetched matches Fetched::CallFailed(e) ==> r.status == 502 && r.body@ == "relay_info: "@
            + e@ && r.content_type@ == "text/plain; charset=utf-8"@,
        fetched is Doc && cfg.public_urls@.len() > 0 ==> same_reply(r, linked),
        fetched is Doc && cfg.public_urls@.len() == 0 ==> same_reply(r, bare),
{
    assert(texts(cfg.public_urls@).len() == cfg.public_urls@.len());
}

/// A request is for the server that its path names; one that names none is refused
/// with the reason, whatever was fetched.
pub proof fn law_requests_follow_the_path(
    cfg: ShimConfig,
    accept: Option<&str>,
    pubkey: &str,
    fetched: Fetched,
    parsed: Result<ParsedPath, PathError>,
    told: String,
    served: HttpReply,
    asked: Result<ParsedPath, HttpReply>,
    r: HttpReply,
)
    requires
        call_ensures(serve_pubkey, (&cfg, accept, pubkey, fetched), r),
        call_ensures(requested_server, (pubkey,), asked),
        call_ensures(parse_path, (pubkey,), parsed),
        parsed matches Ok(p) ==> call_ensures(serve_server, (&cfg, accept, &p, fetched), served),
        parsed matches Err(e) ==> call_ensures(PathError::message, (&e,), told),
    ensures
        parsed matches Ok(p) ==> (asked matches Ok(q) && q.hex@ == p.hex@ && texts(q.relay_hints@)
            == texts(p.relay_hints@)) && same_reply(r, served),
        parsed is Err ==> (asked matches Err(reply) && same_reply(reply, r)) && r.status == 400 && r.body@
            == told@ && r.content_type@ == "text/plain; charset=utf-8"@ && !r.any_origin,
{
}

} // verus!
