//! Relays on the loopback address, and the pipe to them.

use outlay::json::Json;
use outlay::relay::{
    backend_for, directory_to_make, storage_for, Backend, BundledRelay, EventStatus,
    MemorylessDatabase, PortScan, SaveStatus, ScanStep, Storage,
};
use outlay::shim::relay::{
    from_tungstenite, to_tungstenite, ClientFrame, Pipe, PipeAction, PipeEvent, RelayFrame,
};

#[test]
fn text_roundtrips_via_string() {
    let a = ClientFrame::Text("hello".into());
    let t = to_tungstenite(a);
    let RelayFrame::Text(s) = t else {
        panic!("expected Text");
    };
    assert_eq!(s.as_str(), "hello");
    let back = from_tungstenite(RelayFrame::Text("world".into())).unwrap();
    match back {
        ClientFrame::Text(s) => assert_eq!(s.as_str(), "world"),
        _ => panic!("expected Text"),
    }
}

#[test]
fn close_signals_end_of_pipe() {
    assert!(from_tungstenite(RelayFrame::Close).is_none());
}

#[test]
fn every_frame_passes_as_it_is() {
    assert!(from_tungstenite(RelayFrame::Raw).is_none());
    assert_eq!(to_tungstenite(ClientFrame::Close), RelayFrame::Close);
    assert_eq!(
        to_tungstenite(ClientFrame::Binary(vec![1, 2])),
        RelayFrame::Binary(vec![1, 2])
    );
    assert_eq!(
        from_tungstenite(RelayFrame::Ping(vec![3])),
        Some(ClientFrame::Ping(vec![3]))
    );
    assert_eq!(
        from_tungstenite(to_tungstenite(ClientFrame::Pong(vec![4]))),
        Some(ClientFrame::Pong(vec![4]))
    );
}

#[test]
fn the_pipe_forwards_both_ways_until_a_side_ends() {
    let mut p = Pipe::new();
    assert_eq!(
        p.forward(PipeEvent::FromClient(ClientFrame::Text("a".into()))),
        PipeAction::ToRelay(RelayFrame::Text("a".into()))
    );
    assert_eq!(p.forward(PipeEvent::Sent { ok: true }), PipeAction::Wait);
    assert_eq!(
        p.forward(PipeEvent::FromRelay(RelayFrame::Text("b".into()))),
        PipeAction::ToClient(ClientFrame::Text("b".into()))
    );
    assert_eq!(p.forward(PipeEvent::Sent { ok: true }), PipeAction::Wait);
    assert_eq!(
        p.forward(PipeEvent::FromRelay(RelayFrame::Close)),
        PipeAction::Close
    );
    assert_eq!(
        p.forward(PipeEvent::FromClient(ClientFrame::Text("c".into()))),
        PipeAction::Close
    );
    for gone in [PipeEvent::ClientGone, PipeEvent::RelayGone] {
        assert_eq!(Pipe::new().forward(gone), PipeAction::Close);
    }
    let mut p = Pipe::new();
    p.forward(PipeEvent::FromClient(ClientFrame::Close));
    assert_eq!(p.forward(PipeEvent::Sent { ok: false }), PipeAction::Close);
}

#[test]
fn a_memoryless_database_takes_all_and_keeps_none() {
    let db = MemorylessDatabase;
    let event = Json::Object(vec![("id".into(), Json::Str("x".into()))]);
    assert_eq!(db.save_event(&event), SaveStatus::Success);
    assert_eq!(db.check_id("x"), EventStatus::NotExistent);
    assert_eq!(db.event_by_id("x"), None);
    assert_eq!(db.count(&Json::Null), 0);
    assert!(db.query(&Json::Null).is_empty());
    assert_eq!(db.backend(), "memoryless");
    let f = db.features();
    assert!(
        !f.persistent && !f.event_expiration && !f.full_text_search && !f.request_to_vanish
    );
}

#[test]
fn storage_follows_the_backend() {
    assert_eq!(backend_for("memory"), Backend::Memory);
    assert_eq!(backend_for("sqlite"), Backend::Sqlite);
    assert_eq!(backend_for("Memory"), Backend::Sqlite);
    assert_eq!(storage_for(Backend::Memory, None), Ok(Storage::Memory));
    assert_eq!(
        storage_for(Backend::Sqlite, Some("a/b.db")),
        Ok(Storage::File("a/b.db".into()))
    );
    assert_eq!(
        storage_for(Backend::Sqlite, None),
        Err("sqlite backend requires a db path".into())
    );
    assert_eq!(directory_to_make(Some("a"), false).as_deref(), Some("a"));
    assert_eq!(directory_to_make(Some("a"), true), None);
    assert_eq!(directory_to_make(Some(""), false), None);
    assert_eq!(directory_to_make(None, false), None);
}

#[test]
fn a_free_port_is_looked_for() {
    let mut scan = PortScan::new(0);
    assert_eq!(scan.candidate(), 8086);
    for port in 8087..=8135 {
        assert_eq!(scan.busy("taken"), ScanStep::Try(port));
        assert_eq!(scan.candidate(), port);
    }
    assert_eq!(
        scan.busy("taken"),
        ScanStep::GiveUp(
            "no free loopback port for bundled relay in 8086..=8135 (last error: taken)".into()
        )
    );
}

#[test]
fn a_port_that_is_asked_for_is_tried_once() {
    let mut scan = PortScan::new(65535);
    assert_eq!(scan.candidate(), 65535);
    assert_eq!(
        scan.busy("in use"),
        ScanStep::GiveUp("bundled relay failed to bind 127.0.0.1:65535: in use".into())
    );
}

#[test]
fn a_bundled_relay_tells_its_url() {
    assert_eq!(
        BundledRelay::new("ws://127.0.0.1:8086".into()).url(),
        "ws://127.0.0.1:8086"
    );
}
