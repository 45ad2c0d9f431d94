//! The bridge's own relay at `/`: frames pass between a client and the relay as
//! they are.

use vstd::prelude::*;

verus! {

/// A frame of a client's WebSocket.
#[derive(Debug, PartialEq)]
pub enum ClientFrame {
    Text(String),
    Binary(Vec<u8>),
    Ping(Vec<u8>),
    Pong(Vec<u8>),
    Close,
}

/// A frame of the relay's WebSocket.
#[derive(Debug, PartialEq)]
pub enum RelayFrame {
    Text(String),
    Binary(Vec<u8>),
    Ping(Vec<u8>),
    Pong(Vec<u8>),
    Close,
    /// A frame that was not put together into a message.
    Raw,
}

/// The frame for the relay that a client's frame makes.
pub open spec fn to_relay(m: ClientFrame) -> RelayFrame {
    match m {
        ClientFrame::Text(t) => RelayFrame::Text(t),
        ClientFrame::Binary(b) => RelayFrame::Binary(b),
        ClientFrame::Ping(b) => RelayFrame::Ping(b),
        ClientFrame::Pong(b) => RelayFrame::Pong(b),
        ClientFrame::Close => RelayFrame::Close,
    }
}

/// The frame for the client that a frame of the relay makes; none ends the
/// connection.
pub open spec fn to_client(m: RelayFrame) -> Option<ClientFrame> {
    match m {
        RelayFrame::Text(t) => Some(ClientFrame::Text(t)),
        RelayFrame::Binary(b) => Some(ClientFrame::Binary(b)),
        RelayFrame::Ping(b) => Some(ClientFrame::Ping(b)),
        RelayFrame::Pong(b) => Some(ClientFrame::Pong(b)),
        RelayFrame::Close => None,
        RelayFrame::Raw => None,
    }
}

/// The frame for the relay that a client's frame makes.
pub fn to_tungstenite(m: ClientFrame) -> (r: RelayFrame)
    ensures
        r == to_relay(m),
{
    match m {
        ClientFrame::Text(t) => RelayFrame::Text(t),
        ClientFrame::Binary(b) => RelayFrame::Binary(b),
        ClientFrame::Ping(b) => RelayFrame::Ping(b),
        ClientFrame::Pong(b) => RelayFrame::Pong(b),
        ClientFrame::Close => RelayFrame::Close,
    }
}

/// The frame for the client that a frame of the relay makes; none ends the
/// connection.
pub fn from_tungstenite(m: RelayFrame) -> (r: Option<ClientFrame>)
    ensures
        r == to_client(m),
{
    match m {
        RelayFrame::Text(t) => Some(ClientFrame::Text(t)),
        RelayFrame::Binary(b) => Some(ClientFrame::Binary(b)),
        RelayFrame::Ping(b) => Some(ClientFrame::Ping(b)),
        RelayFrame::Pong(b) => Some(ClientFrame::Pong(b)),
        RelayFrame::Close => None,
        RelayFrame::Raw => None,
    }
}

/// Where a connection stands.
#[derive(Debug, Clone, Copy, PartialEq, Eq, Structural)]
pub enum PipePhase {
    /// Frames are awaited from either side.
    Waiting,
    /// A frame is on its way.
    Sending,
    /// The connection is over.
    Closed,
}

/// What happens on a connection.
#[derive(Debug, PartialEq)]
pub enum PipeEvent {
    FromClient(ClientFrame),
    /// The client's side is over or broken.
    ClientGone,
    FromRelay(RelayFrame),
    /// The relay's side is over or broken.
    RelayGone,
    /// The frame was sent, or could not be.
    Sent { ok: bool },
}

/// What is to be done next.
#[derive(Debug, PartialEq)]
pub enum PipeAction {
    Wait,
    ToRelay(RelayFrame),
    ToClient(ClientFrame),
    /// Close both sides.
    Close,
}

/// The phase after an event, and what is to be done.
pub open spec fn pipe_step(phase: PipePhase, e: PipeEvent) -> (PipePhase, PipeAction) {
    match phase {
        PipePhase::Waiting => match e {
            PipeEvent::FromClient(m) => (PipePhase::Sending, PipeAction::ToRelay(to_relay(m))),
            PipeEvent::FromRelay(m) => match to_client(m) {
                Some(m) => (PipePhase::Sending, PipeAction::ToClient(m)),
                None => (PipePhase::Closed, PipeAction::Close),
            },
            PipeEvent::ClientGone => (PipePhase::Closed, PipeAction::Close),
            PipeEvent::RelayGone => (PipePhase::Closed, PipeAction::Close),
            PipeEvent::Sent { .. } => (PipePhase::Waiting, PipeAction::Wait),
        },
        PipePhase::Sending => match e {
            PipeEvent::Sent { ok } => if ok {
                (PipePhase::Waiting, PipeAction::Wait)
            } else {
                (PipePhase::Closed, PipeAction::Close)
            },
            _ => (PipePhase::Sending, PipeAction::Wait),
        },
        PipePhase::Closed => (PipePhase::Closed, PipeAction::Close),
    }
}

/// A connection of a client to the bridge's own relay.
#[derive(Debug, PartialEq)]
pub struct Pipe {
    pub phase: PipePhase,
}

impl Pipe {
    pub fn new() -> (r: Pipe)
        ensures
            r.phase == PipePhase::Waiting,
    {
        Pipe { phase: PipePhase::Waiting }
    }

    /// Takes an event in, and says what to do next.
    pub fn forward(&mut self, event: PipeEvent) -> (r: PipeAction)
        ensures
            (final(self).phase, r) == pipe_step(old(self).phase, event),
    {
        match self.phase {
            PipePhase::Waiting => match event {
                PipeEvent::FromClient(m) => {
                    self.phase = PipePhase::Sending;
                    PipeAction::ToRelay(to_tungstenite(m))
                },
                PipeEvent::FromRelay(m) => match from_tungstenite(m) {
                    Some(m) => {
                        self.phase = PipePhase::Sending;
                        PipeAction::ToClient(m)
                    },
                    None => {
                        self.phase = PipePhase::Closed;
                        PipeAction::Close
                    },
                },
                PipeEvent::ClientGone => {
                    self.phase = PipePhase::Closed;
                    PipeAction::Close
                },
                PipeEvent::RelayGone => {
                    self.phase = PipePhase::Closed;
                    PipeAction::Close
                },
                PipeEvent::Sent { .. } => PipeAction::Wait,
            },
            PipePhase::Sending => match event {
                PipeEvent::Sent { ok } => if ok {
                    self.phase = PipePhase::Waiting;
                    PipeAction::Wait
                } else {
                    self.phase = PipePhase::Closed;
                    PipeAction::Close
                },
                _ => PipeAction::Wait,
            },
            PipePhase::Closed => PipeAction::Close,
        }
    }
}

/// Whatever passes through comes out as it went in: back from the relay, every
/// frame of a client but the closing one is the same frame.
pub proof fn law_frames_come_back(m: ClientFrame)
    ensures
        to_client(to_relay(m)) == if m is Close {
            None
        } else {
            Some(m)
        },
{
}

/// The frames that a run sends to the relay.
pub open spec fn sent_to_relay(phase: PipePhase, events: Seq<PipeEvent>) -> Seq<RelayFrame>
    decreases events.len(),
{
    if events.len() == 0 {
        Seq::empty()
    } else {
        let next = pipe_step(phase, events[0]);
        let rest = sent_to_relay(next.0, events.skip(1));
        match next.1 {
            PipeAction::ToRelay(m) => seq![m] + rest,
            _ => rest,
        }
    }
}

/// The frames that a run takes from the client.
pub open spec fn taken_from_client(phase: PipePhase, events: Seq<PipeEvent>) -> Seq<ClientFrame>
    decreases events.len(),
{
    if events.len() == 0 {
        Seq::empty()
    } else {
        let rest = taken_from_client(pipe_step(phase, events[0]).0, events.skip(1));
        match events[0] {
            PipeEvent::FromClient(m) => if phase == PipePhase::Waiting {
                seq![m] + rest
            } else {
                rest
            },
            _ => rest,
        }
    }
}

/// The frames that a run sends to the client.
pub open spec fn sent_to_client(phase: PipePhase, events: Seq<PipeEvent>) -> Seq<ClientFrame>
    decreases events.len(),
{
    if events.len() == 0 {
        Seq::empty()
    } else {
        let next = pipe_step(phase, events[0]);
        let rest = sent_to_client(next.0, events.skip(1));
        match next.1 {
            PipeAction::ToClient(m) => seq![m] + rest,
            _ => rest,
        }
    }
}

/// The frames that a run takes from the relay, up to one that ends the
/// connection.
pub open spec fn taken_from_relay(phase: PipePhase, events: Seq<PipeEvent>) -> Seq<RelayFrame>
    decreases events.len(),
{
    if events.len() == 0 {
        Seq::empty()
    } else {
        let rest = taken_from_relay(pipe_step(phase, events[0]).0, events.skip(1));
        match events[0] {
            PipeEvent::FromRelay(m) => if phase == PipePhase::Waiting && to_client(m) is Some {
                seq![m] + rest
            } else {
                rest
            },
            _ => rest,
        }
    }
}

/// The connection interprets nothing: what the relay gets is what the client
/// sent, and what the client gets is what the relay sent, frame by frame and in
/// order.
pub proof fn law_pipe_is_verbatim(phase: PipePhase, events: Seq<PipeEvent>)
    ensures
        sent_to_relay(phase, events) == taken_from_client(phase, events).map_values(
            |m: ClientFrame| to_relay(m),
        ),
        sent_to_client(phase, events) == taken_from_relay(phase, events).map_values(
            |m: RelayFrame| to_client(m).unwrap(),
        ),
    decreases events.len(),
{
    let relay = |m: ClientFrame| to_relay(m);
    let client = |m: RelayFrame| to_client(m).unwrap();
    if events.len() > 0 {
        law_pipe_is_verbatim(pipe_step(phase, events[0]).0, events.skip(1));
        assert(sent_to_relay(phase, events) =~= taken_from_client(phase, events).map_values(relay));
        assert(sent_to_client(phase, events) =~= taken_from_relay(phase, events).map_values(client));
    } else {
        assert(sent_to_relay(phase, events) =~= taken_from_client(phase, events).map_values(relay));
        assert(sent_to_client(phase, events) =~= taken_from_relay(phase, events).map_values(client));
    }
}

/// Whether a frame for the relay is a client's frame as it is.
pub open spec fn is_passed_on(m: ClientFrame, f: RelayFrame) -> bool {
    match (m, f) {
        (ClientFrame::Text(a), RelayFrame::Text(b)) => a == b,
        (ClientFrame::Binary(a), RelayFrame::Binary(b)) => a == b,
        (ClientFrame::Ping(a), RelayFrame::Ping(b)) => a == b,
        (ClientFrame::Pong(a), RelayFrame::Pong(b)) => a == b,
        (ClientFrame::Close, RelayFrame::Close) => true,
        _ => false,
    }
}

/// Frames are passed on as they are, to the relay and from it; a closing frame of
/// the relay, or one that is no message, makes none.
pub proof fn law_frames_are_passed_on(
    m: ClientFrame,
    f: RelayFrame,
    there: RelayFrame,
    back: Option<ClientFrame>,
)
    requires
        call_ensures(to_tungstenite, (m,), there),
        call_ensures(from_tungstenite, (f,), back),
    ensures
        is_passed_on(m, there),
        back is None <==> f is Close || f is Raw,
        back matches Some(n) ==> is_passed_on(n, f),
{
}

/// An idle connection hands on what comes, whatever it is, and ends where either
/// side does.
pub proof fn law_idle_pipe_hands_on(pipe: &mut Pipe, event: PipeEvent, r: PipeAction)
    requires
        call_ensures(Pipe::forward, (pipe, event), r),
        old(pipe).phase == PipePhase::Waiting,
    ensures
        match event {
            PipeEvent::FromClient(m) => final(pipe).phase == PipePhase::Sending && (
            r matches PipeAction::ToRelay(f) && is_passed_on(m, f)),
            PipeEvent::FromRelay(f) => if f is Close || f is Raw {
                final(pipe).phase == PipePhase::Closed && r is Close
            } else {
                final(pipe).phase == PipePhase::Sending && (r matches PipeAction::ToClient(m)
                    && is_passed_on(m, f))
            },
            PipeEvent::ClientGone => final(pipe).phase == PipePhase::Closed && r is Close,
            PipeEvent::RelayGone => final(pipe).phase == PipePhase::Closed && r is Close,
            PipeEvent::Sent { .. } => final(pipe).phase == PipePhase::Waiting && r is Wait,
        },
{
}

/// A frame that was sent makes way for the next, one that could not be ends the
/// connection, and a connection that is over stays so.
pub proof fn law_report_on_a_frame(pipe: &mut Pipe, event: PipeEvent, r: PipeAction)
    requires
        call_ensures(Pipe::forward, (pipe, event), r),
    ensures
        old(pipe).phase == PipePhase::Sending ==> match event {
            PipeEvent::Sent { ok } => if ok {
                final(pipe).phase == PipePhase::Waiting && r is Wait
            } else {
                final(pipe).phase == PipePhase::Closed && r is Close
            },
            _ => final(pipe).phase == PipePhase::Sending && r is Wait,
        },
        old(pipe).phase == PipePhase::Closed ==> final(pipe).phase == PipePhase::Closed
            && r is Close,
{
}

/// The frames that a row of actions sends to the relay.
pub open spec fn relay_gets(actions: Seq<PipeAction>) -> Seq<RelayFrame>
    decreases actions.len(),
{
    if actions.len() == 0 {
        Seq::empty()
    } else {
        match actions.last() {
            PipeAction::ToRelay(f) => relay_gets(actions.drop_last()).push(f),
            _ => relay_gets(actions.drop_last()),
        }
    }
}

/// The frames that a row of actions sends to the client.
pub open spec fn client_gets(actions: Seq<PipeAction>) -> Seq<ClientFrame>
    decreases actions.len(),
{
    if actions.len() == 0 {
        Seq::empty()
    } else {
        match actions.last() {
            PipeAction::ToClient(m) => client_gets(actions.drop_last()).push(m),
            _ => client_gets(actions.drop_last()),
        }
    }
}

/// Every frame of the client among `events`.
pub open spec fn client_sends(events: Seq<PipeEvent>) -> Seq<ClientFrame>
    decreases events.len(),
{
    if events.len() == 0 {
        Seq::empty()
    } else {
        match events.last() {
            PipeEvent::FromClient(m) => client_sends(events.drop_last()).push(m),
            _ => client_sends(events.drop_last()),
        }
    }
}

/// Every frame of the relay among `events`.
pub open spec fn relay_sends(events: Seq<PipeEvent>) -> Seq<RelayFrame>
    decreases events.len(),
{
    if events.len() == 0 {
        Seq::empty()
    } else {
        match events.last() {
            PipeEvent::FromRelay(f) => relay_sends(events.drop_last()).push(f),
            _ => relay_sends(events.drop_last()),
        }
    }
}

/// Whether the last frame is not reported as sent yet.
pub open spec fn unsent(events: Seq<PipeEvent>) -> bool
    decreases events.len(),
{
    events.len() > 0 && match events.last() {
        PipeEvent::FromClient(_) => true,
        PipeEvent::FromRelay(_) => true,
        PipeEvent::Sent { .. } => false,
        _ => unsent(events.drop_last()),
    }
}

/// Whether nothing among `events` ends the connection: neither side leaves and each
/// frame is sent before the next comes.
pub open spec fn unbroken(events: Seq<PipeEvent>) -> bool
    decreases events.len(),
{
    events.len() > 0 ==> unbroken(events.drop_last()) && match events.last() {
        PipeEvent::FromClient(_) => !unsent(events.drop_last()),
        PipeEvent::FromRelay(f) => !unsent(events.drop_last()) && !(f is Close) && !(f is Raw),
        PipeEvent::Sent { ok } => ok,
        _ => false,
    }
}

/// An unbroken connection carries everything: every frame of the client reaches the
/// relay and every frame of the relay the client, each as it is, once and in order.
/// `states` are those of a connection that takes `events` in, one call of `forward`
/// for each, and `actions` what is to be done.
pub proof fn law_unbroken_pipe_is_complete(
    states: Seq<Pipe>,
    events: Seq<PipeEvent>,
    actions: Seq<PipeAction>,
)
    requires
        states.len() == events.len() + 1,
        actions.len() == events.len(),
        forall|i: int|
            #![trigger events[i]]
            0 <= i < events.len() ==> exists|pipe: &mut Pipe|
                *pipe == states[i] && *final(pipe) == states[i + 1] && #[trigger] call_ensures(
                    Pipe::forward,
                    (pipe, events[i]),
                    actions[i],
                ),
        states[0].phase == PipePhase::Waiting,
        unbroken(events),
    ensures
        relay_gets(actions).len() == client_sends(events).len(),
        forall|i: int|
            0 <= i < relay_gets(actions).len() ==> is_passed_on(
                client_sends(events)[i],
                #[trigger] relay_gets(actions)[i],
            ),
        client_gets(actions).len() == relay_sends(events).len(),
        forall|i: int|
            0 <= i < client_gets(actions).len() ==> is_passed_on(
                #[trigger] client_gets(actions)[i],
                relay_sends(events)[i],
            ),
        states.last().phase == if unsent(events) {
            PipePhase::Sending
        } else {
            PipePhase::Waiting
        },
{
    assert forall|i: int| 0 <= i < events.len() implies (states[i + 1].phase, actions[i])
        == pipe_step(states[i].phase, #[trigger] events[i]) by {
        let pipe = choose|pipe: &mut Pipe|
            *pipe == states[i] && *final(pipe) == states[i + 1] && #[trigger] call_ensures(
                Pipe::forward,
                (pipe, events[i]),
                actions[i],
            );
        assert(*pipe == states[i]);
    }
    lemma_unbroken_run(states, events, actions);
}

proof fn lemma_unbroken_run(states: Seq<Pipe>, events: Seq<PipeEvent>, actions: Seq<PipeAction>)
    requires
        states.len() == events.len() + 1,
        actions.len() == events.len(),
        forall|i: int|
            0 <= i < events.len() ==> (states[i + 1].phase, actions[i]) == pipe_step(
                states[i].phase,
                #[trigger] events[i],
            ),
        states[0].phase == PipePhase::Waiting,
        unbroken(events),
    ensures
        relay_gets(actions).len() == client_sends(events).len(),
        forall|i: int|
            0 <= i < relay_gets(actions).len() ==> is_passed_on(
                client_sends(events)[i],
                #[trigger] relay_gets(actions)[i],
            ),
        client_gets(actions).len() == relay_sends(events).len(),
        forall|i: int|
            0 <= i < client_gets(actions).len() ==> is_passed_on(
                #[trigger] client_gets(actions)[i],
                relay_sends(events)[i],
            ),
        states.last().phase == if unsent(events) {
            PipePhase::Sending
        } else {
            PipePhase::Waiting
        },
    decreases events.len(),
{
    if events.len() > 0 {
        let n = events.len() - 1;
        let earlier = events.drop_last();
        let before = states.drop_last();
        let asked = actions.drop_last();
        assert forall|i: int| 0 <= i < earlier.len() implies (before[i + 1].phase, asked[i])
            == pipe_step(before[i].phase, #[trigger] earlier[i]) by {
            assert(earlier[i] == events[i]);
        }
        lemma_unbroken_run(before, earlier, asked);
        assert(events[n] == events.last());
        assert(before.last() == states[n]);
    }
}

/// A connection starts idle.
pub proof fn law_pipe_starts_idle(r: Pipe)
    requires
        call_ensures(Pipe::new, (), r),
    ensures
        r.phase == PipePhase::Waiting,
{
}

} // verus!
