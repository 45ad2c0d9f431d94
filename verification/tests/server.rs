//! The server: the proxy, its subscriptions and its tools.

use outlay::env::Env;
use outlay::json::Json;
use outlay::modes::{EncryptionMode, GiftWrapMode};
use outlay::relay::Backend;
use outlay::server::config::{read_server_config, ServerConfig};
use outlay::server::handler::{OutlayServer, PublishEventParams, SubscribeParams};
use outlay::server::nostr::{read_event, read_filters};
use outlay::server::proxy::{
    map_notification, nip11_origin, overlay_proxy_info, relay_info_doc, synthesized_proxy_info,
    Forward, InfoReply, Notification, Proxy, ProxyError, PublishOutcome, SendResult, Setup,
    OUTLAY_VERSION,
};
use outlay::server::startup::{
    banner, build_transport_config, choose_upstream, page_url, Upstream,
};
use outlay::server::subscription::{Phase, StreamAction, StreamEvent, Subscription, Unwind};

use nostr_sdk::{Event, EventBuilder, Keys};

fn event(content: &str) -> Event {
    EventBuilder::text_note(content)
        .sign_with_keys(&Keys::generate())
        .expect("sign")
}

fn event_json(event: &Event) -> Json {
    Json::from_value(serde_json::to_value(event).unwrap())
}

fn notif_event(sub: &str, event: Event) -> Notification {
    Notification::Event {
        subscription_id: sub.into(),
        event: event_json(&event),
    }
}

fn notif_eose(sub: &str) -> Notification {
    Notification::EndOfStoredEvents {
        subscription_id: sub.into(),
    }
}

fn notif_closed(sub: &str, msg: &str) -> Notification {
    Notification::Closed {
        subscription_id: sub.into(),
        message: msg.into(),
    }
}

fn as_array(s: &str) -> serde_json::Value {
    serde_json::from_str(s).unwrap()
}

fn value(text: &str) -> Json {
    Json::from_value(serde_json::from_str(text).unwrap())
}

#[test]
fn maps_event_for_our_sub() {
    let ev = event("hello");
    let n = notif_event("upstream-1", ev.clone());
    match map_notification(&n, "upstream-1", "client-sub") {
        Some(Forward::Continue(c)) => {
            let v = as_array(&c);
            assert_eq!(v[0], "EVENT");
            assert_eq!(v[1], "client-sub");
            assert_eq!(v[2]["content"], "hello");
            assert_eq!(v[2], serde_json::to_value(&ev).unwrap());
        }
        other => panic!("expected Continue, got {other:?}"),
    }
}

#[test]
fn maps_eose_for_our_sub() {
    let n = notif_eose("upstream-1");
    match map_notification(&n, "upstream-1", "client-sub") {
        Some(Forward::Continue(c)) => {
            let v = as_array(&c);
            assert_eq!(v[0], "EOSE");
            assert_eq!(v[1], "client-sub");
        }
        other => panic!("expected Continue, got {other:?}"),
    }
}

#[test]
fn maps_closed_for_our_sub_as_stop() {
    let n = notif_closed("upstream-1", "restricted: not allowed");
    match map_notification(&n, "upstream-1", "client-sub") {
        Some(Forward::Stop(c)) => {
            let v = as_array(&c);
            assert_eq!(v[0], "CLOSED");
            assert_eq!(v[1], "client-sub");
            assert_eq!(v[2], "restricted: not allowed");
        }
        other => panic!("expected Stop, got {other:?}"),
    }
}

#[test]
fn ignores_other_subs_and_unrelated_messages() {
    // EVENT for a different upstream sub → ignored.
    assert!(map_notification(&notif_event("upstream-2", event("x")), "upstream-1", "c").is_none());
    // EOSE for a different sub → ignored.
    assert!(map_notification(&notif_eose("upstream-2"), "upstream-1", "c").is_none());
    // OK (publish ack) → not part of a subscribe stream.
    assert!(map_notification(&Notification::OtherMessage, "upstream-1", "c").is_none());
    assert!(map_notification(&Notification::FirstSeen, "upstream-1", "c").is_none());
    assert!(map_notification(&notif_closed("upstream-2", "m"), "upstream-1", "c").is_none());
}

#[test]
fn sub_isolation_by_upstream_id() {
    let n = notif_event("theirs", event("not mine"));
    assert!(map_notification(&n, "mine", "c").is_none());
    // and vice versa
    let n = notif_event("mine", event("mine"));
    assert!(map_notification(&n, "theirs", "c").is_none());
}

#[test]
fn shutdown_closes_every_stream() {
    assert_eq!(
        map_notification(&Notification::Shutdown, "any", "c"),
        Some(Forward::Stop(
            r#"["CLOSED","c","error: upstream relay pool shut down"]"#.into()
        ))
    );
}

#[test]
fn nip11_origin_converts_scheme_and_strips_path() {
    assert_eq!(
        nip11_origin("wss://relay.primal.net").as_deref(),
        Some("https://relay.primal.net")
    );
    assert_eq!(
        nip11_origin("ws://localhost:8080").as_deref(),
        Some("http://localhost:8080")
    );
    assert_eq!(
        nip11_origin("wss://relay.example.com/some/path?x=1").as_deref(),
        Some("https://relay.example.com")
    );
    assert!(nip11_origin("ftp://host").is_none());
}

#[test]
fn nip11_origin_stops_at_the_authority() {
    for tail in ["", "/", "/a?b#c", "?x=1", "#top", "?a/b", "#a?b/c"] {
        assert_eq!(
            nip11_origin(&format!("wss://relay.example.com{tail}")).as_deref(),
            Some("https://relay.example.com"),
            "{tail}"
        );
        assert_eq!(
            nip11_origin(&format!("ws://[::1]:8080{tail}")).as_deref(),
            Some("http://[::1]:8080"),
            "{tail}"
        );
    }
}

#[test]
fn overlay_stamps_outlay_identity_and_preserves_upstream_fields() {
    let doc = value(
        r#"{"name":"Primal","software":"primal-server","version":"1.2.3","supported_nips":[1,11,42],"custom_field":"preserved"}"#,
    );
    let out = overlay_proxy_info(doc).to_value();
    assert_eq!(out["software"], "outlay");
    assert_eq!(out["version"], OUTLAY_VERSION);
    assert_eq!(out["proxy"], true);
    // upstream identity preserved under `upstream`.
    assert_eq!(out["upstream"]["software"], "primal-server");
    assert_eq!(out["upstream"]["version"], "1.2.3");
    // other fields untouched (verbatim proxy).
    assert_eq!(out["name"], "Primal");
    assert_eq!(out["supported_nips"][2], 42);
    assert_eq!(out["custom_field"], "preserved");
}

#[test]
fn overlay_without_upstream_software_omits_upstream_key() {
    let doc = value(r#"{"name":"bare relay"}"#);
    let out = overlay_proxy_info(doc).to_value();
    assert_eq!(out["software"], "outlay");
    assert!(out.get("upstream").is_none());
}

#[test]
fn a_field_named_upstream_passes_through_without_an_identity() {
    let out = overlay_proxy_info(value(r#"{"upstream":[1]}"#)).to_value();
    assert_eq!(out["upstream"][0], 1);
    let out = overlay_proxy_info(value(r#"{"upstream":[1],"version":"2"}"#)).to_value();
    assert_eq!(out["upstream"]["version"], "2");
}

#[test]
fn documents_of_no_use_are_replaced() {
    let minimum = r#"{"proxy":true,"software":"outlay","supported_nips":[1],"version":"0.3.1"}"#;
    assert_eq!(synthesized_proxy_info().text(), minimum);
    assert_eq!(relay_info_doc(None).text(), minimum);
    assert_eq!(relay_info_doc(Some(Json::Null)).text(), minimum);
    assert_eq!(
        relay_info_doc(Some(value(r#"{"version":null}"#))).text(),
        r#"{"proxy":true,"software":"outlay","upstream":{"version":null},"version":"0.3.1"}"#
    );
}

fn proxy(url: &str) -> Proxy {
    Proxy::new(url.into(), Setup::Ready).unwrap()
}

#[test]
fn a_proxy_needs_its_connections() {
    let failed = |setup| Proxy::new("ws://x".into(), setup).unwrap_err().message();
    assert_eq!(
        failed(Setup::PoolFailed("p".into())),
        "upstream relay pool init failed: p"
    );
    assert_eq!(
        failed(Setup::ConnectFailed("c".into())),
        "upstream relay connect failed: c"
    );
    assert_eq!(
        failed(Setup::HttpFailed("h".into())),
        "upstream relay pool init failed: http client: h"
    );
    assert_eq!(proxy("ws://x").upstream_url, "ws://x");
}

#[test]
fn error_messages() {
    assert_eq!(
        ProxyError::EmptyFilters.message(),
        "subscribe filters must be non-empty"
    );
    assert_eq!(
        ProxyError::Subscribe("s".into()).message(),
        "upstream subscribe failed: s"
    );
    assert_eq!(
        ProxyError::Publish("p".into()).message(),
        "upstream publish failed: p"
    );
    assert_eq!(
        ProxyError::PublishTimeout.message(),
        "upstream did not acknowledge the event within timeout"
    );
    assert_eq!(
        ProxyError::RelayInfo("r".into()).message(),
        "relay_info: r"
    );
}

#[test]
fn relay_info_tolerates_what_relays_answer() {
    let p = proxy("ws://127.0.0.1:8086/");
    assert_eq!(p.relay_info_origin(), Ok("http://127.0.0.1:8086".into()));
    let minimum = synthesized_proxy_info();
    assert_eq!(p.relay_info(InfoReply::Unreachable).unwrap(), minimum);
    let answer = |success, body: &str| {
        p.relay_info(InfoReply::Answer {
            success,
            body: body.as_bytes().to_vec(),
        })
        .unwrap()
    };
    assert_eq!(answer(true, "<html>"), minimum);
    assert_eq!(answer(true, "[1]"), minimum);
    assert_eq!(answer(false, r#"{"name":"n"}"#), minimum);
    assert_eq!(answer(true, r#"{"name":"n"}"#).get_str("name"), Some("n"));
    let e = proxy("http://x").relay_info(InfoReply::Unreachable).unwrap_err();
    assert_eq!(
        e.message(),
        "relay_info: upstream URL must be ws:// or wss://, got: http://x"
    );
}

#[test]
fn publishing_reports_what_the_relay_said() {
    let p = proxy("ws://x");
    let sent = |accepted: &[&str], errors: &[&str]| SendResult::Sent {
        accepted_by: accepted.iter().map(|s| s.to_string()).collect(),
        errors: errors.iter().map(|s| s.to_string()).collect(),
    };
    let outcome = |r| p.publish_event("id".into(), r).unwrap();
    assert_eq!(
        outcome(sent(&["ws://x"], &["other"])),
        PublishOutcome {
            ok: true,
            event_id: "id".into(),
            message: "".into()
        }
    );
    assert_eq!(outcome(sent(&[], &["blocked: spam", "b"])).message, "blocked: spam");
    assert_eq!(
        outcome(sent(&[], &[])).message,
        "error: upstream did not accept the event"
    );
    let late = outcome(SendResult::TimedOut);
    assert!(!late.ok);
    assert_eq!(late.event_id, "id");
    assert_eq!(late.message, "error: upstream did not acknowledge");
    assert_eq!(
        p.publish_event("id".into(), SendResult::Failed("down".into())),
        Err(ProxyError::Publish("down".into()))
    );
    assert_eq!(
        late.to_json().text(),
        r#"{"event_id":"id","message":"error: upstream did not acknowledge","ok":false}"#
    );
}

fn subscription() -> Subscription {
    let filters = read_filters(&vec![value(r#"{"kinds":[1]}"#)]).unwrap();
    proxy("ws://x")
        .subscribe_as("c".into(), &filters, "up".into())
        .unwrap()
}

const ALIVE: StreamEvent = StreamEvent::Written {
    sent: true,
    sink_active: true,
};

#[test]
fn a_stream_runs_to_its_close() {
    let mut s = subscription();
    assert_eq!(
        s.step(StreamEvent::Notified(notif_eose("up"))),
        StreamAction::Write(r#"["EOSE","c"]"#.into())
    );
    assert_eq!(s.step(ALIVE), StreamAction::Wait);
    assert_eq!(
        s.step(StreamEvent::Notified(notif_eose("other"))),
        StreamAction::Wait
    );
    assert_eq!(s.step(StreamEvent::Lagged), StreamAction::Wait);
    assert_eq!(
        s.step(StreamEvent::Poll { sink_active: true }),
        StreamAction::Wait
    );
    assert_eq!(
        s.step(StreamEvent::Notified(notif_closed("up", "bye"))),
        StreamAction::Write(r#"["CLOSED","c","bye"]"#.into())
    );
    assert_eq!(s.step(ALIVE), StreamAction::End);
    assert_eq!(
        s.step(StreamEvent::Notified(notif_eose("up"))),
        StreamAction::End
    );
    assert_eq!(
        s.unwind(true),
        vec![Unwind::Unsubscribe("up".into()), Unwind::CloseSink]
    );
}

#[test]
fn a_gone_client_ends_its_stream() {
    let mut s = subscription();
    assert_eq!(
        s.step(StreamEvent::Poll { sink_active: false }),
        StreamAction::End
    );
    assert_eq!(s.unwind(false), vec![Unwind::Unsubscribe("up".into())]);
    for (sent, sink_active) in [(false, true), (true, false)] {
        let mut s = subscription();
        s.step(StreamEvent::Notified(notif_eose("up")));
        assert_eq!(
            s.step(StreamEvent::Written { sent, sink_active }),
            StreamAction::End
        );
        assert_eq!(s.phase, Phase::Ended);
    }
    let mut s = subscription();
    assert_eq!(s.step(StreamEvent::NotificationsClosed), StreamAction::End);
}

#[test]
fn subscriptions_get_ids_of_their_own() {
    let p = proxy("ws://x");
    let filters = read_filters(&vec![value("{}")]).unwrap();
    let a = p.subscribe("sub1".into(), &filters).unwrap();
    let b = p.subscribe("sub1".into(), &filters).unwrap();
    assert_ne!(a.upstream_id, b.upstream_id);
    for s in [&a, &b] {
        assert_eq!(s.client_sub, "sub1");
        assert_eq!(s.upstream_id.len(), 32);
        assert!(s
            .upstream_id
            .chars()
            .all(|c| c.is_ascii_digit() || ('a'..='f').contains(&c)));
    }
    assert_eq!(
        p.subscribe("s".into(), &vec![]),
        Err(ProxyError::EmptyFilters)
    );
    assert_eq!(
        a.opened(Err("no".into())),
        Err(ProxyError::Subscribe("no".into()))
    );
    let id = b.upstream_id.clone();
    assert_eq!(b.opened(Ok(())).unwrap().upstream_id, id);
}

#[test]
fn the_subscribe_tool_checks_its_arguments() {
    let server = OutlayServer::new(proxy("ws://x"));
    let params = |filters: &[&str]| SubscribeParams {
        subscription_id: "s".into(),
        filters: filters.iter().map(|f| value(f)).collect(),
    };
    let (s, filters) = server
        .subscribe(params(&[r#"{"kinds":[1],"limit":3}"#, "{}"]), true)
        .unwrap();
    assert_eq!(s.client_sub, "s");
    assert_eq!(filters.len(), 2);
    assert_eq!(
        serde_json::to_value(&filters[0]).unwrap(),
        serde_json::from_str::<serde_json::Value>(r#"{"kinds":[1],"limit":3}"#).unwrap()
    );
    assert_eq!(
        server.subscribe(params(&["7"]), false).unwrap_err(),
        "subscribe requires CEP-41 open-stream; the client must advertise support and send a progressToken"
    );
    assert_eq!(
        server.subscribe(params(&[]), true).unwrap_err(),
        "subscribe filters must be non-empty"
    );
    let first = serde_json::from_str::<nostr_sdk::Filter>("7");
    assert!(first.is_err());
    let expected = serde_json::from_value::<nostr_sdk::Filter>(value("7").to_value())
        .unwrap_err()
        .to_string();
    assert_eq!(
        server
            .subscribe(params(&["{}", "7", "\"x\""]), true)
            .unwrap_err(),
        expected
    );
    assert_eq!(server.subscribe_output().text(), r#"{"ok":true}"#);
}

#[test]
fn the_publish_tool_forwards_the_event_as_it_is() {
    let server = OutlayServer::new(proxy("ws://x"));
    let signed = event("as it is");
    let params = PublishEventParams {
        event: event_json(&signed),
    };
    let (read, id) = server.event_to_publish(&params).unwrap();
    assert_eq!(read, signed);
    assert_eq!(id, signed.id.to_hex());
    assert!(server
        .event_to_publish(&PublishEventParams {
            event: value(r#"{"id":"x"}"#)
        })
        .is_err());
    assert!(read_event(&Json::Null).is_err());
    let out = server
        .publish_event(
            id.clone(),
            SendResult::Sent {
                accepted_by: vec!["ws://x".into()],
                errors: vec![],
            },
        )
        .unwrap();
    assert_eq!(out.get_bool("ok"), Some(true));
    assert_eq!(out.get_str("event_id"), Some(id.as_str()));
    assert_eq!(
        server
            .publish_event(id, SendResult::Failed("down".into()))
            .unwrap_err(),
        "upstream publish failed: down"
    );
}

#[test]
fn the_relay_info_tool_gives_the_document() {
    let server = OutlayServer::new(proxy("wss://x"));
    let doc = server.relay_info(InfoReply::Unreachable).unwrap();
    assert_eq!(doc.get_str("software"), Some("outlay"));
    assert_eq!(doc.get("upstream"), None);
    let server = OutlayServer::new(proxy("x"));
    assert_eq!(
        server.relay_info(InfoReply::Unreachable).unwrap_err(),
        "relay_info: upstream URL must be ws:// or wss://, got: x"
    );
    let card = server.get_info();
    assert_eq!(card.name, "outlay");
    assert_eq!(card.version, OUTLAY_VERSION);
    assert_eq!(card.title, "outlay — Nostr relay over ContextVM");
    assert!(card.instructions.starts_with("Transparent Nostr relay proxy. Call subscribe"));
}

fn settings(pairs: &[(&str, &str)]) -> ServerConfig {
    let mut env = Env::new();
    for (name, value) in pairs {
        env.set(name.to_string(), value.to_string());
    }
    read_server_config(&env).unwrap()
}

#[test]
fn the_upstream_follows_the_settings() {
    assert_eq!(
        choose_upstream(&settings(&[])),
        Upstream::Bundled {
            backend: Backend::Sqlite,
            db_path: "outlay-relay.db".into(),
            port: 0
        }
    );
    assert_eq!(
        choose_upstream(&settings(&[
            ("OUTLAY_BUNDLED_BACKEND", "memory"),
            ("OUTLAY_BUNDLED_PORT", "9000"),
            ("OUTLAY_BUNDLED_DB_PATH", "x/y.db"),
        ])),
        Upstream::Bundled {
            backend: Backend::Memory,
            db_path: "x/y.db".into(),
            port: 9000
        }
    );
    assert_eq!(
        choose_upstream(&settings(&[("OUTLAY_PROXY_RELAY_URL", "wss://r")])),
        Upstream::External("wss://r".into())
    );
}

#[test]
fn the_transport_follows_the_settings() {
    let t = build_transport_config(&settings(&[
        ("OUTLAY_RELAY_URLS", "wss://a,wss://b"),
        ("OUTLAY_SERVER_NAME", "n"),
        ("OUTLAY_ANNOUNCED", "true"),
        ("OUTLAY_GIFT_WRAP_MODE", "optional"),
    ]));
    assert_eq!(t.relay_urls, vec!["wss://a", "wss://b"]);
    assert!(t.announced);
    assert_eq!(t.encryption_mode, EncryptionMode::Optional);
    assert_eq!(t.gift_wrap_mode, GiftWrapMode::Optional);
    assert_eq!(t.name, "n");
    assert_eq!(t.about, "");
    assert!(t.open_stream);
    assert_eq!(t.idle_timeout_ms, 60_000);
    assert_eq!(t.probe_timeout_ms, 60_000);
    assert_eq!(
        build_transport_config(&settings(&[("OUTLAY_SERVER_ABOUT", "x")])).about,
        "x"
    );
}

#[test]
fn the_banner_shows_where_to_go() {
    let cfg = settings(&[("OUTLAY_RELAY_URLS", "wss://a.test,wss://b.test")]);
    let rule = "═".repeat(64);
    assert_eq!(page_url(&cfg, "k").as_deref(), Some("https://a.test/k"));
    assert_eq!(
        banner("k", &cfg, "ws://up"),
        format!(
            "\n  {rule}\n   outlay — Nostr relay over ContextVM\n  {rule}\n\n   server pubkey   k\n   page            https://a.test/k\n\n   CVM relays (listening)\n     • wss://a.test\n     • wss://b.test\n\n   upstream relay (proxied)\n     • ws://up\n\n"
        )
    );
}
