//! The bridge: paths, frames, connections, documents and transports.

use outlay::env::Env;
use outlay::json::Json;
use outlay::modes::{EncryptionMode, GiftWrapMode};
use outlay::shim::call::{CallAction, CallEvent, CallPhase, SubscribeCall};
use outlay::shim::cell::{CellAnswer, CellPhase, TransportCell};
use outlay::shim::config::{read_shim_config, ShimConfig};
use outlay::shim::conn::{
    open_connection, publish_answer_frame, refusal_frame, Action, Connection, Inbound, PublishReply,
};
use outlay::shim::nip11::{
    esc, render, render_html, serve_pubkey, serve_root, synth_root, Fetched,
};
use outlay::shim::path::{parse_path, path_from_entity, Entity, PathError};
use outlay::shim::server::{
    public_page, pubkey_route, refused_upgrade, relay_after, root_route, AppState, RelayStart,
    Route,
};
use outlay::shim::translate::{
    client_msg, closed_frame, notice_frame, ok_frame, parse_client_frame, ClientMsg,
};
use outlay::shim::transport::{
    args, client_setup, resolve_relay_urls, rewrite_own_urls, Lookup, Slots, TransportCache,
    STARTUP_TIMEOUT,
};

use nostr_sdk::nips::nip19::Nip19Profile;
use nostr_sdk::{Keys, RelayUrl, ToBech32};

#[test]
fn hex_pubkey_accepted_no_hints() {
    let hex = Keys::generate().public_key().to_hex();
    let p = parse_path(&hex).unwrap();
    assert_eq!(p.hex, hex);
    assert!(p.relay_hints.is_empty());
}

#[test]
fn npub_accepted_no_hints() {
    let pk = Keys::generate().public_key();
    let npub = pk.to_bech32().expect("npub");
    let p = parse_path(&npub).unwrap();
    assert_eq!(p.hex, pk.to_hex());
    assert!(p.relay_hints.is_empty());
}

#[test]
fn nprofile_with_hint_surfaces_normalized_hints() {
    let pk = Keys::generate().public_key();
    let profile = Nip19Profile::new(
        pk,
        vec![RelayUrl::parse("wss://relay.contextvm.org").unwrap()],
    );
    let s = profile.to_bech32().expect("nprofile");
    let p = parse_path(&s).unwrap();
    assert_eq!(p.hex, pk.to_hex());
    // Normalized: trailing slash stripped, ready to compare against self URLs.
    assert_eq!(p.relay_hints, vec!["wss://relay.contextvm.org"]);
}

#[test]
fn relay_hints_end_without_slashes() {
    let profile = Nip19Profile::new(
        Keys::generate().public_key(),
        vec![
            RelayUrl::parse("wss://a.test/").unwrap(),
            RelayUrl::parse("wss://b.test/path//").unwrap(),
        ],
    );
    let p = parse_path(&profile.to_bech32().unwrap()).unwrap();
    assert_eq!(p.relay_hints, vec!["wss://a.test", "wss://b.test/path"]);
}

#[test]
fn nprofile_without_hint_reports_no_hints() {
    let pk = Keys::generate().public_key();
    let profile = Nip19Profile::new(pk, Vec::<RelayUrl>::new());
    let s = profile.to_bech32().expect("nprofile");
    let p = parse_path(&s).unwrap();
    assert_eq!(p.hex, pk.to_hex());
    assert!(
        p.relay_hints.is_empty(),
        "nprofile with no relays => no hints"
    );
}

#[test]
fn all_encodings_share_hex_key() {
    let pk = Keys::generate().public_key();
    let hex = pk.to_hex();
    let npub = pk.to_bech32().expect("npub");
    let with_hints = Nip19Profile::new(
        pk,
        vec![RelayUrl::parse("wss://relay.contextvm.org").unwrap()],
    )
    .to_bech32()
    .expect("nprofile");
    let no_hints = Nip19Profile::new(pk, Vec::<RelayUrl>::new())
        .to_bech32()
        .expect("nprofile");
    for input in [hex.as_str(), &npub, &with_hints, &no_hints] {
        assert_eq!(parse_path(input).unwrap().hex, hex, "input: {input}");
    }
    assert_eq!(parse_path(&hex.to_uppercase()).unwrap().hex, hex);
}

#[test]
fn rejects_non_pubkey_entities_and_garbage() {
    // valid bech32 but the wrong entity (a note) => NotAPubkey
    let note_id = nostr_sdk::EventId::from_byte_array([0u8; 32]);
    let note_str = note_id.to_bech32().expect("note");
    assert!(matches!(parse_path(&note_str), Err(PathError::NotAPubkey)));
    // empty / whitespace => NotAPubkey
    assert!(matches!(parse_path(""), Err(PathError::NotAPubkey)));
    assert!(matches!(parse_path("   "), Err(PathError::NotAPubkey)));
    // garbage (not valid bech32) => Invalid
    assert!(matches!(
        parse_path("not-a-pubkey"),
        Err(PathError::Invalid(_))
    ));
}

#[test]
fn trims_whitespace() {
    let hex = Keys::generate().public_key().to_hex();
    let p = parse_path(&format!("  {hex}  ")).unwrap();
    assert_eq!(p.hex, hex);
}

#[test]
fn path_errors_say_what_is_wrong() {
    assert_eq!(
        PathError::NotAPubkey.message(),
        "not a server pubkey (expected 64-char hex, npub, or nprofile)"
    );
    assert_eq!(
        PathError::Invalid("x".into()).message(),
        "invalid pubkey: x"
    );
    // one digit short: no key, and no bech32 either
    let short = "a".repeat(63);
    assert!(matches!(parse_path(&short), Err(PathError::Invalid(_))));
    assert_eq!(
        path_from_entity(Ok(Entity::Other)),
        Err(PathError::NotAPubkey)
    );
    assert_eq!(
        path_from_entity(Err("e".into())),
        Err(PathError::Invalid("e".into()))
    );
    let nsec = Keys::generate().secret_key().to_bech32().unwrap();
    assert_eq!(parse_path(&nsec), Err(PathError::NotAPubkey));
}

#[test]
fn parses_req_with_filters() {
    let m = parse_client_frame(r#"["REQ","sub1",{"kinds":[1]},{"authors":["abc"]}]"#).unwrap();
    match m {
        ClientMsg::Req { sub_id, filters } => {
            assert_eq!(sub_id, "sub1");
            assert_eq!(filters.len(), 2);
            assert_eq!(filters[1].text(), r#"{"authors":["abc"]}"#);
        }
        _ => panic!("expected Req"),
    }
}

#[test]
fn parses_close() {
    match parse_client_frame(r#"["CLOSE","sub1"]"#).unwrap() {
        ClientMsg::Close { sub_id } => assert_eq!(sub_id, "sub1"),
        _ => panic!("expected Close"),
    }
}

#[test]
fn parses_publish_event() {
    match parse_client_frame(r#"["EVENT",{"id":"x","kind":1,"pubkey":"p"}]"#).unwrap() {
        ClientMsg::Publish(e) => assert_eq!(e.get_str("id"), Some("x")),
        _ => panic!("expected Publish"),
    }
}

#[test]
fn req_without_sub_id_is_none() {
    assert!(parse_client_frame(r#"["REQ"]"#).is_none());
}

#[test]
fn unknown_and_malformed_are_none() {
    assert!(parse_client_frame(r#"["NOTICE","hi"]"#).is_none());
    assert!(parse_client_frame("not json").is_none());
    assert!(parse_client_frame(r#"[]"#).is_none());
    assert!(parse_client_frame(r#"["REQ",1,{}]"#).is_none());
    assert!(parse_client_frame(r#"["CLOSE"]"#).is_none());
    assert!(parse_client_frame(r#"["EVENT"]"#).is_none());
    assert!(parse_client_frame(r#"[1,"x"]"#).is_none());
    assert!(client_msg(&vec![]).is_none());
}

#[test]
fn frame_synthesis() {
    assert_eq!(ok_frame("abc", true, "ok"), r#"["OK","abc",true,"ok"]"#);
    assert_eq!(notice_frame("bad"), r#"["NOTICE","bad"]"#);
    assert_eq!(closed_frame("s", "done"), r#"["CLOSED","s","done"]"#);
}

#[test]
fn frames_of_the_bridge_are_no_client_messages() {
    for frame in [ok_frame("a", false, "\"m"), notice_frame("\n"), closed_frame("s", "")] {
        assert!(Json::parse_array(&frame).is_some());
        assert!(parse_client_frame(&frame).is_none());
    }
}

fn text(s: &str) -> Inbound {
    Inbound::Text(s.into())
}

#[test]
fn a_connection_opens_replaces_and_closes() {
    let mut c = Connection::new();
    let opened = c.on_frame(text(r#"["REQ","a",{"kinds":[1]}]"#));
    assert_eq!(opened.len(), 1);
    match &opened[0] {
        Action::Subscribe { sub_id, arguments } => {
            assert_eq!(sub_id, "a");
            assert_eq!(
                arguments.text(),
                r#"{"filters":[{"kinds":[1]}],"subscription_id":"a"}"#
            );
        }
        other => panic!("expected Subscribe, got {other:?}"),
    }
    let replaced = c.on_frame(text(r#"["REQ","a"]"#));
    assert_eq!(replaced.len(), 2);
    assert_eq!(replaced[0], Action::Cancel("a".into()));
    assert!(matches!(&replaced[1], Action::Subscribe { sub_id, .. } if sub_id == "a"));
    assert_eq!(
        c.on_frame(text(r#"["CLOSE","a"]"#)),
        vec![Action::Cancel("a".into())]
    );
    assert_eq!(c.on_frame(text(r#"["CLOSE","a"]"#)), vec![]);
    assert!(c.finish().is_empty());
}

#[test]
fn a_connection_answers_and_ends() {
    let mut c = Connection::new();
    assert_eq!(
        c.on_frame(text("hello")),
        vec![Action::Send(r#"["NOTICE","unrecognized frame"]"#.into())]
    );
    assert_eq!(c.on_frame(Inbound::Other), vec![]);
    let published = c.on_frame(text(r#"["EVENT",{"id":"x"}]"#));
    match &published[..] {
        [Action::Publish { event, arguments }] => {
            assert_eq!(event.text(), r#"{"id":"x"}"#);
            assert_eq!(arguments.text(), r#"{"event":{"id":"x"}}"#);
        }
        other => panic!("expected Publish, got {other:?}"),
    }
    c.on_frame(text(r#"["REQ","b"]"#));
    c.on_frame(text(r#"["REQ","c"]"#));
    assert_eq!(c.on_frame(Inbound::Gone), vec![Action::End]);
    assert_eq!(c.finish(), vec!["b", "c"]);
}

#[test]
fn refusals_are_notices() {
    assert_eq!(refusal_frame("no"), r#"["NOTICE","error: no"]"#);
    assert_eq!(
        open_connection(""),
        Err(
            r#"["NOTICE","error: not a server pubkey (expected 64-char hex, npub, or nprofile)"]"#
                .into()
        )
    );
    let hex = "AB".repeat(32);
    assert_eq!(open_connection(&hex).unwrap().hex, "ab".repeat(32));
}

fn json(text: &str) -> Json {
    Json::from_value(serde_json::from_str(text).unwrap())
}

#[test]
fn publishing_is_answered_with_ok() {
    let event = json(r#"{"id":"x"}"#);
    let answer = |reply| publish_answer_frame(&event, reply);
    assert_eq!(
        answer(PublishReply::Result(Some(json(
            r#"{"ok":true,"event_id":"y","message":"m"}"#
        )))),
        r#"["OK","y",true,"m"]"#
    );
    assert_eq!(
        answer(PublishReply::Result(None)),
        r#"["OK","x",false,""]"#
    );
    assert_eq!(
        answer(PublishReply::Result(Some(json(r#"{"ok":1,"event_id":2}"#)))),
        r#"["OK","x",false,""]"#
    );
    assert_eq!(
        answer(PublishReply::Failed("down".into())),
        r#"["OK","x",false,"down"]"#
    );
    assert_eq!(
        publish_answer_frame(&Json::Null, PublishReply::Failed("e".into())),
        r#"["OK","",false,"e"]"#
    );
}

#[test]
fn a_call_hands_chunks_on_as_they_are() {
    let mut call = SubscribeCall::new("s".into());
    assert_eq!(call.step(CallEvent::Opened), CallAction::Wait);
    assert_eq!(
        call.step(CallEvent::Chunk("any text".into())),
        CallAction::Send("any text".into())
    );
    assert_eq!(
        call.step(CallEvent::Sent { delivered: true }),
        CallAction::Wait
    );
    assert_eq!(
        call.step(CallEvent::Cancelled),
        CallAction::Cancel("client closed subscription")
    );
    assert_eq!(
        call.step(CallEvent::Chunk("late".into())),
        CallAction::Return
    );
}

#[test]
fn a_call_that_fails_says_so_once() {
    let mut call = SubscribeCall::new("s".into());
    assert_eq!(
        call.step(CallEvent::OpenFailed("no".into())),
        CallAction::Send(r#"["CLOSED","s","no"]"#.into())
    );
    assert_eq!(
        call.step(CallEvent::Sent { delivered: true }),
        CallAction::Return
    );
    assert_eq!(call.phase, CallPhase::Done);
    let mut call = SubscribeCall::new("s".into());
    call.step(CallEvent::Opened);
    assert_eq!(
        call.step(CallEvent::StreamFailed("broke".into())),
        CallAction::Send(r#"["CLOSED","s","broke"]"#.into())
    );
    let mut call = SubscribeCall::new("s".into());
    assert_eq!(call.step(CallEvent::Cancelled), CallAction::Return);
    let mut call = SubscribeCall::new("s".into());
    call.step(CallEvent::Opened);
    assert_eq!(call.step(CallEvent::StreamEnded), CallAction::Return);
    let mut call = SubscribeCall::new("s".into());
    call.step(CallEvent::Opened);
    call.step(CallEvent::Chunk("c".into()));
    assert_eq!(
        call.step(CallEvent::Sent { delivered: false }),
        CallAction::Return
    );
}

fn config(pairs: &[(&str, &str)]) -> ShimConfig {
    let mut env = Env::new();
    for (name, value) in pairs {
        env.set(name.to_string(), value.to_string());
    }
    read_shim_config(&env).unwrap()
}

#[test]
fn text_is_escaped_for_a_page() {
    assert_eq!(
        esc(r#"<a href="x">&amp;'</a>"#),
        "&lt;a href=&quot;x&quot;&gt;&amp;amp;'&lt;/a&gt;"
    );
    assert_eq!(esc(""), "");
}

#[test]
fn documents_are_negotiated() {
    let doc = json(r#"{"name":"n","b":[1]}"#);
    let r = render(&doc, Some("text/html, application/nostr+json;q=1"), None);
    assert_eq!(r.status, 200);
    assert_eq!(r.content_type, "application/nostr+json");
    assert!(r.any_origin);
    assert_eq!(r.body, "{\n  \"b\": [\n    1\n  ],\n  \"name\": \"n\"\n}");
    for accept in [None, Some("text/html"), Some("application/json")] {
        let r = render(&doc, accept, None);
        assert_eq!(r.content_type, "text/html; charset=utf-8");
        assert!(!r.any_origin);
        assert_eq!(r.body, render_html(&doc, None));
    }
}

#[test]
fn the_page_shows_the_document() {
    let page = render_html(&json(r#"{"name":"<b>"}"#), Some("wss://h/\"k"));
    assert_eq!(
        page,
        concat_page(
            "&lt;b&gt;",
            "<p><a class=\"btn\" href=\"https://jumble.social/?r=wss://h/&quot;k\" target=\"_blank\" rel=\"noopener noreferrer\">Open feed in Jumble ↗</a></p>",
            "{\n  &quot;name&quot;: &quot;&lt;b&gt;&quot;\n}"
        )
    );
    assert_eq!(
        render_html(&Json::Null, None),
        concat_page("Nostr relay", "", "null")
    );
}

fn concat_page(name: &str, button: &str, doc: &str) -> String {
    format!(
        "<!doctype html><html lang=\"en\"><head><meta charset=\"utf-8\"><title>{name}</title>\
<style>body{{font-family:system-ui,sans-serif;max-width:46rem;margin:2rem auto;padding:0 1rem}}\
.btn{{display:inline-block;padding:.5rem 1rem;background:#6c4efc;color:#fff;text-decoration:none;border-radius:.5rem}}\
pre{{background:#f5f5f5;padding:1rem;overflow:auto;border-radius:.5rem}}</style></head>\
<body><h1>{name}</h1>\
<p>outlay-shim bridge. Nostr clients: request this URL with \
<code>Accept: application/nostr+json</code> for the NIP-11 document.</p>\
{button}\
<pre>{doc}</pre></body></html>"
    )
}

#[test]
fn the_root_document_is_the_bridges_own() {
    let doc = synth_root().to_value();
    assert_eq!(doc["name"], "outlay-shim");
    assert_eq!(doc["software"], "outlay-shim");
    assert_eq!(doc["version"], "0.3.1");
    assert_eq!(doc["supported_nips"][1], 11);
    assert_eq!(doc["limitation"]["bridge"], true);
    assert_eq!(
        doc["description"],
        "Local NIP-01 bridge to CVM-exposed outlay servers. Connect at /<server-pubkey> (hex, npub, or nprofile)."
    );
    let r = serve_root(Some("application/nostr+json"));
    assert_eq!(r.body, synth_root().pretty());
    let read: serde_json::Value = serde_json::from_slice(r.body.as_bytes()).unwrap();
    assert_eq!(read, doc);
    assert!(serve_root(None).body.starts_with("<!doctype html>"));
}

#[test]
fn a_servers_document_is_served() {
    let cfg = config(&[("OUTLAY_SHIM_PUBLIC_URLS", "wss://me.test")]);
    let key = "ab".repeat(32);
    let r = serve_pubkey(&cfg, None, "nobody", Fetched::Doc(None));
    assert_eq!(r.status, 400);
    assert!(r.body.starts_with("invalid pubkey: "));
    assert_eq!(r.content_type, "text/plain; charset=utf-8");
    let r = serve_pubkey(&cfg, None, &key, Fetched::NoTransport("timeout".into()));
    assert_eq!((r.status, r.body.as_str()), (502, "timeout"));
    let r = serve_pubkey(&cfg, None, &key, Fetched::CallFailed("gone".into()));
    assert_eq!((r.status, r.body.as_str()), (502, "relay_info: gone"));
    let doc = json(r#"{"name":"n"}"#);
    let r = serve_pubkey(&cfg, None, &key.to_uppercase(), Fetched::Doc(Some(doc.clone())));
    assert_eq!(r.status, 200);
    assert_eq!(
        r.body,
        render_html(&doc, Some(&format!("wss://me.test/{key}")))
    );
    let r = serve_pubkey(&cfg, Some("application/nostr+json"), &key, Fetched::Doc(None));
    assert_eq!(r.body, "null");
}

#[test]
fn the_bridge_never_dials_itself() {
    let cfg = config(&[
        ("OUTLAY_SHIM_RELAY_URLS", "wss://me.test"),
        ("OUTLAY_SHIM_PUBLIC_URLS", "wss://me.test"),
    ]);
    let pk = Keys::generate().public_key();
    let bare = parse_path(&pk.to_hex()).unwrap();
    let lo = Some("ws://127.0.0.1:8086");
    assert_eq!(resolve_relay_urls(&cfg, &bare, None), vec!["wss://me.test"]);
    assert_eq!(
        resolve_relay_urls(&cfg, &bare, lo),
        vec!["ws://127.0.0.1:8086"]
    );
    let hinted = parse_path(
        &Nip19Profile::new(
            pk,
            vec![
                RelayUrl::parse("wss://me.test:443/").unwrap(),
                RelayUrl::parse("wss://other.test").unwrap(),
            ],
        )
        .to_bech32()
        .unwrap(),
    )
    .unwrap();
    assert_eq!(
        resolve_relay_urls(&cfg, &hinted, lo),
        vec!["ws://127.0.0.1:8086", "wss://other.test"]
    );
    assert_eq!(
        resolve_relay_urls(&cfg, &hinted, None),
        vec!["wss://me.test", "wss://other.test"]
    );
}

#[test]
fn urls_are_compared_in_normal_form() {
    let cfg = config(&[
        ("OUTLAY_SHIM_RELAY_URLS", "WSS://Me.Test:443/,no url,wss://x.test/a"),
        ("OUTLAY_SHIM_PUBLIC_URLS", "wss://me.test,no url"),
    ]);
    let bare = parse_path(&"0".repeat(64)).unwrap();
    assert_eq!(
        resolve_relay_urls(&cfg, &bare, Some("lo")),
        vec!["lo", "lo", "wss://x.test/a"]
    );
    let list = |l: &[&str]| l.iter().map(|s| s.to_string()).collect::<Vec<_>>();
    assert_eq!(
        rewrite_own_urls(&list(&["A", "B"]), &list(&["a", "b"]), &list(&["b"]), Some("lo")),
        vec!["A", "lo"]
    );
}

#[test]
fn a_transport_is_set_up_for_its_server() {
    let cfg = config(&[
        ("OUTLAY_SHIM_PRIVATE_KEY", "k"),
        ("OUTLAY_SHIM_ENCRYPTION_MODE", "required"),
        ("OUTLAY_SHIM_CONNECT_TIMEOUT", "3"),
    ]);
    let parsed = parse_path(&"A".repeat(64)).unwrap();
    let t = client_setup(&cfg, &parsed, None);
    assert_eq!(t.server_pubkey, "a".repeat(64));
    assert_eq!(t.relay_urls, vec!["wss://relay.contextvm.org"]);
    assert_eq!(t.private_key.as_deref(), Some("k"));
    assert_eq!(t.encryption_mode, EncryptionMode::Required);
    assert_eq!(t.gift_wrap_mode, GiftWrapMode::Ephemeral);
    assert!(t.stateless && t.open_stream);
    assert_eq!(t.timeout_secs, 3);
    assert_eq!(STARTUP_TIMEOUT, "client transport startup timed out");
}

#[test]
fn one_slot_for_each_identity() {
    let path = |d: &str| parse_path(&d.repeat(64)).unwrap();
    let mut slots = Slots::new(2);
    let fresh = |slot| Lookup { slot, fresh: true };
    let kept = |slot| Lookup { slot, fresh: false };
    assert_eq!(slots.find(&path("a")), fresh(0));
    assert_eq!(slots.find(&path("A")), kept(0));
    assert_eq!(slots.find(&path("b")), fresh(1));
    assert_eq!(slots.find(&path("a")), kept(0));
    // full: the least recently used identity makes room
    assert_eq!(slots.find(&path("c")), fresh(1));
    assert_eq!(slots.find(&path("a")), kept(0));
    assert_eq!(slots.find(&path("b")), fresh(1));
    assert_eq!(slots.find(&path("c")), fresh(0));
}

#[test]
fn recent_identities_stay() {
    let path = |n: usize| parse_path(&format!("{n:064x}")).unwrap();
    let mut slots = Slots::new(64);
    let first = slots.find(&path(0)).slot;
    for n in 1..64 {
        assert!(slots.find(&path(n)).fresh);
        assert!(!slots.find(&path(n)).fresh);
    }
    assert_eq!(
        slots.find(&path(0)),
        Lookup {
            slot: first,
            fresh: false
        }
    );
    assert!(slots.find(&path(64)).fresh);
    assert!(slots.find(&path(1)).fresh);
    assert!(!slots.find(&path(0)).fresh);
}

#[test]
fn one_cell_for_each_identity() {
    let path = |d: &str| parse_path(&d.repeat(64)).unwrap();
    let mut cache = TransportCache::new(2);
    assert_eq!(*cache.get(&path("a"), 1), 1);
    assert_eq!(*cache.get(&path("A"), 2), 1);
    assert_eq!(*cache.get(&path("b"), 3), 3);
    assert_eq!(*cache.get(&path("a"), 4), 1);
    // full: the cell of the least recently used identity is dropped
    assert_eq!(*cache.get(&path("c"), 5), 5);
    assert_eq!(*cache.get(&path("a"), 6), 1);
    assert_eq!(*cache.get(&path("b"), 7), 7);
    assert_eq!(*cache.get(&path("a"), 8), 1);
    assert_eq!(*cache.get(&path("c"), 9), 9);
    assert_eq!(*cache.get(&path("b"), 10), 10);
}

#[test]
fn one_build_serves_all_who_ask() {
    let mut cell = TransportCell::new();
    assert_eq!(cell.ask(), CellAnswer::Build);
    assert_eq!(cell.ask(), CellAnswer::Wait);
    assert_eq!(*cell.built("first"), "first");
    assert_eq!(cell.ask(), CellAnswer::Use(&"first"));
    // a transport that is there stays
    assert_eq!(*cell.built("second"), "first");
    cell.failed();
    assert_eq!(cell.ask(), CellAnswer::Use(&"first"));
    assert_eq!(cell.phase, CellPhase::Built("first"));
}

#[test]
fn a_failed_build_is_tried_again() {
    let mut cell = TransportCell::<u8>::new();
    assert_eq!(cell.ask(), CellAnswer::Build);
    cell.failed();
    assert_eq!(cell.phase, CellPhase::Empty);
    assert_eq!(cell.ask(), CellAnswer::Build);
    assert_eq!(*cell.built(7), 7);
}

#[test]
fn requests_go_where_they_belong() {
    let url = Some("ws://127.0.0.1:8086".to_string());
    assert_eq!(
        root_route(&url, true),
        Route::OwnRelay("ws://127.0.0.1:8086".into())
    );
    assert_eq!(root_route(&url, false), Route::RootDoc);
    assert_eq!(root_route(&None, true), Route::RootDoc);
    let cfg = config(&[("OUTLAY_SHIM_MAX_WS_MESSAGE_BYTES", "77")]);
    assert_eq!(
        pubkey_route(&cfg, "k", true),
        Route::Bridge {
            pubkey: "k".into(),
            max_message_bytes: 77
        }
    );
    assert_eq!(
        pubkey_route(&cfg, "k", false),
        Route::ServerDoc { pubkey: "k".into() }
    );
    let r = refused_upgrade("bad");
    assert_eq!((r.status, r.body.as_str()), (400, "bad"));
    assert_eq!(public_page(&cfg).as_deref(), Some("https://relay.contextvm.org"));
}

#[test]
fn the_bridge_serves_without_its_relay() {
    assert_eq!(relay_after(RelayStart::Off), None);
    assert_eq!(relay_after(RelayStart::Failed("e".into())), None);
    assert_eq!(
        relay_after(RelayStart::Running("ws://x".into())).as_deref(),
        Some("ws://x")
    );
    let mut state = AppState::new(config(&[]), None);
    assert!(state.relay_url.is_none());
    let parsed = parse_path(&"1".repeat(64)).unwrap();
    assert_eq!(*state.transports.get(&parsed, "cell"), "cell");
}

#[test]
fn arguments_are_the_fields_of_an_object() {
    assert_eq!(
        args(json(r#"{"a":true}"#)),
        vec![("a".to_string(), Json::Bool(true))]
    );
    assert!(args(Json::Array(vec![])).is_empty());
}
