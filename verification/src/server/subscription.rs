//! One subscription: what is written to the client's stream, and when it ends.

use vstd::prelude::*;

use crate::json::{json_text, reads_back, JsonView};
use crate::server::proxy::{
    map_notification, message_of, Forward, Notification, NotificationView, Proxy, ProxyError,
    ProxyErrorView,
};
use crate::text::is_hex;

verus! {

/// A new id by `nostr_sdk::SubscriptionId::generate`: 32 lower-case hexadecimal
/// digits. Which ones rests on chance.
#[verifier::external_body]
fn fresh_id() -> (r: String)
    ensures
        is_hex(r@, 32),
{
    nostr_sdk::SubscriptionId::generate().to_string()
}

/// Where a subscription stands.
#[derive(Debug, Clone, Copy, PartialEq, Eq, Structural)]
pub enum Phase {
    /// Messages of the upstream relay are awaited.
    Open,
    /// A chunk is being written to the stream.
    Writing,
    /// The last chunk is being written.
    LastWrite,
    /// The stream is over.
    Ended,
}

/// What happens to a subscription.
#[derive(Debug, PartialEq)]
pub enum StreamEvent {
    /// The pool reports something.
    Notified(Notification),
    /// Some reports of the pool were missed.
    Lagged,
    /// The pool reports no more.
    NotificationsClosed,
    /// It is time to look whether the client still reads.
    Poll { sink_active: bool },
    /// A chunk has been written, or could not be; the client still reads or not.
    Written { sent: bool, sink_active: bool },
}

/// What is to be done next.
#[derive(Debug, PartialEq)]
pub enum StreamAction {
    /// Write this chunk and report on it.
    Write(String),
    /// Await the next event.
    Wait,
    /// Unwind the subscription.
    End,
}

/// What a step asks for: a message to write, nothing, or the end.
pub enum Step {
    Write(JsonView),
    Wait,
    End,
}

/// The phase after an event, and what is asked for.
pub open spec fn step_of(
    phase: Phase,
    e: StreamEvent,
    upstream_id: Seq<char>,
    client_sub: Seq<char>,
) -> (Phase, Step) {
    match phase {
        Phase::Open => match e {
            StreamEvent::Notified(n) => match message_of(n@, upstream_id, client_sub) {
                Some(m) => if m.last {
                    (Phase::LastWrite, Step::Write(m.value))
                } else {
                    (Phase::Writing, Step::Write(m.value))
                },
                None => (Phase::Open, Step::Wait),
            },
            StreamEvent::NotificationsClosed => (Phase::Ended, Step::End),
            StreamEvent::Poll { sink_active } => if sink_active {
                (Phase::Open, Step::Wait)
            } else {
                (Phase::Ended, Step::End)
            },
            _ => (Phase::Open, Step::Wait),
        },
        Phase::Writing => match e {
            StreamEvent::Written { sent, sink_active } => if sent && sink_active {
                (Phase::Open, Step::Wait)
            } else {
                (Phase::Ended, Step::End)
            },
            _ => (Phase::Writing, Step::Wait),
        },
        Phase::LastWrite => match e {
            StreamEvent::Written { .. } => (Phase::Ended, Step::End),
            _ => (Phase::LastWrite, Step::Wait),
        },
        Phase::Ended => (Phase::Ended, Step::End),
    }
}

/// Whether an action is what a step asks for.
pub open spec fn acts_on(action: StreamAction, step: Step) -> bool {
    match (action, step) {
        (StreamAction::Write(c), Step::Write(v)) => c@ == json_text(v) && reads_back(c@, v),
        (StreamAction::Wait, Step::Wait) => true,
        (StreamAction::End, Step::End) => true,
        _ => false,
    }
}

/// What is left to do when a stream is over.
#[derive(Debug, PartialEq)]
pub enum Unwind {
    /// Close the subscription at the upstream relay.
    Unsubscribe(String),
    /// Close the client's stream.
    CloseSink,
}

/// One call of `subscribe`: the client's subscription and the upstream relay's.
#[derive(Debug, PartialEq)]
pub struct Subscription {
    pub client_sub: String,
    pub upstream_id: String,
    pub phase: Phase,
}

impl Proxy {
    /// Starts a subscription under an id of its own.
    pub fn subscribe(&self, client_sub: String, filters: &Vec<nostr_sdk::Filter>) -> (r: Result<
        Subscription,
        ProxyError,
    >)
        ensures
            match r {
                Ok(s) => filters@.len() > 0 && s.client_sub == client_sub && is_hex(
                    s.upstream_id@,
                    32,
                ) && s.phase == Phase::Open,
                Err(e) => filters@.len() == 0 && e@ == ProxyErrorView::EmptyFilters,
            },
    {
        self.subscribe_as(client_sub, filters, fresh_id())
    }

    /// Starts a subscription that the upstream relay knows by `upstream_id`.
    pub fn subscribe_as(
        &self,
        client_sub: String,
        filters: &Vec<nostr_sdk::Filter>,
        upstream_id: String,
    ) -> (r: Result<Subscription, ProxyError>)
        ensures
            match r {
                Ok(s) => filters@.len() > 0 && s.client_sub == client_sub && s.upstream_id
                    == upstream_id && s.phase == Phase::Open,
                Err(e) => filters@.len() == 0 && e@ == ProxyErrorView::EmptyFilters,
            },
    {
        if filters.len() == 0 {
            return Err(ProxyError::EmptyFilters);
        }
        Ok(Subscription { client_sub, upstream_id, phase: Phase::Open })
    }
}

impl Subscription {
    /// Goes on with a subscription that the upstream relay has taken, and ends
    /// the call of one that it has not.
    pub fn opened(self, reply: Result<(), String>) -> (r: Result<Subscription, ProxyError>)
        ensures
            match (r, reply) {
                (Ok(s), Ok(_)) => s == self,
                (Err(e), Err(cause)) => e@ == ProxyErrorView::Subscribe(cause@),
                _ => false,
            },
    {
        match reply {
            Ok(_) => Ok(self),
            Err(cause) => Err(ProxyError::Subscribe(cause)),
        }
    }

    /// Takes an event in, and says what to do next.
    pub fn step(&mut self, event: StreamEvent) -> (r: StreamAction)
        ensures
            final(self).client_sub == old(self).client_sub,
            final(self).upstream_id == old(self).upstream_id,
            ({
                let next = step_of(
                    old(self).phase,
                    event,
                    old(self).upstream_id@,
                    old(self).client_sub@,
                );
                final(self).phase == next.0 && acts_on(r, next.1)
            }),
    {
        match self.phase {
            Phase::Open => match event {
                StreamEvent::Notified(n) => match map_notification(
                    &n,
                    self.upstream_id.as_str(),
                    self.client_sub.as_str(),
                ) {
                    Some(Forward::Continue(c)) => {
                        self.phase = Phase::Writing;
                        StreamAction::Write(c)
                    },
                    Some(Forward::Stop(c)) => {
                        self.phase = Phase::LastWrite;
                        StreamAction::Write(c)
                    },
                    None => StreamAction::Wait,
                },
                StreamEvent::NotificationsClosed => self.end(),
                StreamEvent::Poll { sink_active } => if sink_active {
                    StreamAction::Wait
                } else {
                    self.end()
                },
                StreamEvent::Lagged => StreamAction::Wait,
                StreamEvent::Written { .. } => StreamAction::Wait,
            },
            Phase::Writing => match event {
                StreamEvent::Written { sent, sink_active } => if sent && sink_active {
                    self.phase = Phase::Open;
                    StreamAction::Wait
                } else {
                    self.end()
                },
                _ => StreamAction::Wait,
            },
            Phase::LastWrite => match event {
                StreamEvent::Written { .. } => self.end(),
                _ => StreamAction::Wait,
            },
            Phase::Ended => StreamAction::End,
        }
    }

    fn end(&mut self) -> (r: StreamAction)
        ensures
            r is End,
            final(self).phase == Phase::Ended,
            final(self).client_sub == old(self).client_sub,
            final(self).upstream_id == old(self).upstream_id,
    {
        self.phase = Phase::Ended;
        StreamAction::End
    }

    /// What is left to do when the stream is over: the upstream subscription is
    /// closed in every case, the client's stream where the client still reads.
    pub fn unwind(self, sink_active: bool) -> (r: Vec<Unwind>)
        ensures
            r@ == if sink_active {
                seq![Unwind::Unsubscribe(self.upstream_id), Unwind::CloseSink]
            } else {
                seq![Unwind::Unsubscribe(self.upstream_id)]
            },
    {
        let mut left: Vec<Unwind> = Vec::new();
        left.push(Unwind::Unsubscribe(self.upstream_id));
        if sink_active {
            left.push(Unwind::CloseSink);
        }
        left
    }
}

/// The messages that a run writes.
pub open spec fn written(
    phase: Phase,
    events: Seq<StreamEvent>,
    upstream_id: Seq<char>,
    client_sub: Seq<char>,
) -> Seq<JsonView>
    decreases events.len(),
{
    if events.len() == 0 {
        Seq::empty()
    } else {
        let next = step_of(phase, events[0], upstream_id, client_sub);
        let rest = written(next.0, events.skip(1), upstream_id, client_sub);
        match next.1 {
            Step::Write(v) => seq![v] + rest,
            _ => rest,
        }
    }
}

/// The phase after a run.
pub open spec fn phase_after(
    phase: Phase,
    events: Seq<StreamEvent>,
    upstream_id: Seq<char>,
    client_sub: Seq<char>,
) -> Phase
    decreases events.len(),
{
    if events.len() == 0 {
        phase
    } else {
        phase_after(
            step_of(phase, events[0], upstream_id, client_sub).0,
            events.skip(1),
            upstream_id,
            client_sub,
        )
    }
}

/// The reports of the pool that a run takes in, in order.
pub open spec fn taken(
    phase: Phase,
    events: Seq<StreamEvent>,
    upstream_id: Seq<char>,
    client_sub: Seq<char>,
) -> Seq<NotificationView>
    decreases events.len(),
{
    if events.len() == 0 {
        Seq::empty()
    } else {
        let rest = taken(
            step_of(phase, events[0], upstream_id, client_sub).0,
            events.skip(1),
            upstream_id,
            client_sub,
        );
        match events[0] {
            StreamEvent::Notified(n) => if phase == Phase::Open {
                seq![n@] + rest
            } else {
                rest
            },
            _ => rest,
        }
    }
}

/// The messages that a list of reports makes for one subscription, up to the
/// first that closes it.
pub open spec fn relayed(
    reports: Seq<NotificationView>,
    upstream_id: Seq<char>,
    client_sub: Seq<char>,
) -> Seq<JsonView>
    decreases reports.len(),
{
    if reports.len() == 0 {
        Seq::empty()
    } else {
        match message_of(reports[0], upstream_id, client_sub) {
            Some(m) => if m.last {
                seq![m.value]
            } else {
                seq![m.value] + relayed(reports.skip(1), upstream_id, client_sub)
            },
            None => relayed(reports.skip(1), upstream_id, client_sub),
        }
    }
}

/// The client's stream is the upstream subscription: whatever happens, the
/// messages written are those that the reports taken in make for this
/// subscription, each once and in order, up to the first that closes it.
pub proof fn law_stream_is_the_subscription(
    events: Seq<StreamEvent>,
    upstream_id: Seq<char>,
    client_sub: Seq<char>,
)
    ensures
        written(Phase::Open, events, upstream_id, client_sub) == relayed(
            taken(Phase::Open, events, upstream_id, client_sub),
            upstream_id,
            client_sub,
        ),
{
    lemma_written_is_relayed(Phase::Open, events, upstream_id, client_sub);
}

proof fn lemma_written_is_relayed(
    phase: Phase,
    events: Seq<StreamEvent>,
    upstream_id: Seq<char>,
    client_sub: Seq<char>,
)
    ensures
        written(phase, events, upstream_id, client_sub) == relayed(
            taken(phase, events, upstream_id, client_sub),
            upstream_id,
            client_sub,
        ),
        phase == Phase::LastWrite || phase == Phase::Ended ==> taken(
            phase,
            events,
            upstream_id,
            client_sub,
        ).len() == 0,
    decreases events.len(),
{
    if events.len() > 0 {
        let next = step_of(phase, events[0], upstream_id, client_sub).0;
        let rest = taken(next, events.skip(1), upstream_id, client_sub);
        lemma_written_is_relayed(next, events.skip(1), upstream_id, client_sub);
        if phase == Phase::Open {
            if let StreamEvent::Notified(n) = events[0] {
                let all = seq![n@] + rest;
                assert(all.skip(1) =~= rest);
                assert(all[0] == n@);
                if let Some(m) = message_of(n@, upstream_id, client_sub) {
                    if m.last {
                        assert(written(next, events.skip(1), upstream_id, client_sub) =~= Seq::empty());
                    }
                }
            }
        }
    }
}

/// Every message of the stream bears the client's own subscription id.
pub proof fn law_stream_bears_the_clients_id(
    events: Seq<StreamEvent>,
    upstream_id: Seq<char>,
    client_sub: Seq<char>,
    i: int,
)
    requires
        0 <= i < written(Phase::Open, events, upstream_id, client_sub).len(),
    ensures
        ({
            let m = written(Phase::Open, events, upstream_id, client_sub)[i];
            m is Array && m->Array_0.len() >= 2 && m->Array_0[1] == JsonView::Str(client_sub)
        }),
{
    lemma_written_bears_id(Phase::Open, events, upstream_id, client_sub, i);
}

proof fn lemma_written_bears_id(
    phase: Phase,
    events: Seq<StreamEvent>,
    upstream_id: Seq<char>,
    client_sub: Seq<char>,
    i: int,
)
    requires
        0 <= i < written(phase, events, upstream_id, client_sub).len(),
    ensures
        ({
            let m = written(phase, events, upstream_id, client_sub)[i];
            m is Array && m->Array_0.len() >= 2 && m->Array_0[1] == JsonView::Str(client_sub)
        }),
    decreases events.len(),
{
    let next = step_of(phase, events[0], upstream_id, client_sub);
    match next.1 {
        Step::Write(v) => {
            if i > 0 {
                lemma_written_bears_id(next.0, events.skip(1), upstream_id, client_sub, i - 1);
            }
        },
        _ => lemma_written_bears_id(next.0, events.skip(1), upstream_id, client_sub, i),
    }
}

/// A stream that is over stays over, and nothing more is written to it.
pub proof fn law_ended_is_final(
    events: Seq<StreamEvent>,
    upstream_id: Seq<char>,
    client_sub: Seq<char>,
)
    ensures
        phase_after(Phase::Ended, events, upstream_id, client_sub) == Phase::Ended,
        written(Phase::Ended, events, upstream_id, client_sub).len() == 0,
    decreases events.len(),
{
    if events.len() > 0 {
        law_ended_is_final(events.skip(1), upstream_id, client_sub);
    }
}

/// A client that is gone does not keep a subscription open: at the next look, or
/// with the chunk being written, the stream ends.
pub proof fn law_gone_client_ends_the_stream(
    phase: Phase,
    sent: bool,
    upstream_id: Seq<char>,
    client_sub: Seq<char>,
)
    ensures
        step_of(
            Phase::Open,
            StreamEvent::Poll { sink_active: false },
            upstream_id,
            client_sub,
        ).0 == Phase::Ended,
        phase != Phase::Open ==> step_of(
            phase,
            StreamEvent::Written { sent, sink_active: false },
            upstream_id,
            client_sub,
        ).0 == Phase::Ended,
{
}

/// Messages of its own subscription reach an open stream, each as it came but
/// under the client's id, and do not end it; a report on another subscription, a
/// gap in the reports and a look at a client that still reads change nothing.
pub proof fn law_open_stream_goes_on(s: &mut Subscription, event: StreamEvent, r: StreamAction)
    requires
        call_ensures(Subscription::step, (s, event), r),
        old(s).phase == Phase::Open,
    ensures
        final(s).client_sub == old(s).client_sub,
        final(s).upstream_id == old(s).upstream_id,
        event matches StreamEvent::Notified(Notification::Event { subscription_id, event: e }) ==> if subscription_id@
            == old(s).upstream_id@ {
            final(s).phase == Phase::Writing && (r matches StreamAction::Write(c) && c@ == json_text(
                JsonView::Array(
                    seq![JsonView::Str("EVENT"@), JsonView::Str(old(s).client_sub@), e@],
                ),
            ))
        } else {
            final(s).phase == Phase::Open && r is Wait
        },
        event matches StreamEvent::Notified(Notification::EndOfStoredEvents { subscription_id })
            ==> if subscription_id@ == old(s).upstream_id@ {
            final(s).phase == Phase::Writing && (r matches StreamAction::Write(c) && c@ == json_text(
                JsonView::Array(seq![JsonView::Str("EOSE"@), JsonView::Str(old(s).client_sub@)]),
            ))
        } else {
            final(s).phase == Phase::Open && r is Wait
        },
        event matches StreamEvent::Notified(Notification::Closed { subscription_id, message })
            ==> subscription_id@ != old(s).upstream_id@ ==> final(s).phase == Phase::Open
            && r is Wait,
        event matches StreamEvent::Notified(Notification::OtherMessage) ==> final(s).phase
            == Phase::Open && r is Wait,
        event matches StreamEvent::Notified(Notification::FirstSeen) ==> final(s).phase
            == Phase::Open && r is Wait,
        event is Lagged ==> final(s).phase == Phase::Open && r is Wait,
        event is Written ==> final(s).phase == Phase::Open && r is Wait,
        event matches StreamEvent::Poll { sink_active } ==> sink_active ==> final(s).phase
            == Phase::Open && r is Wait,
{
}

/// An open stream ends for these reasons alone: the relay closes the subscription
/// or the pool shuts down, which the client is told first; the pool reports no
/// more; or the client is gone.
pub proof fn law_what_ends_an_open_stream(s: &mut Subscription, event: StreamEvent, r: StreamAction)
    requires
        call_ensures(Subscription::step, (s, event), r),
        old(s).phase == Phase::Open,
    ensures
        event matches StreamEvent::Notified(Notification::Closed { subscription_id, message })
            ==> subscription_id@ == old(s).upstream_id@ ==> final(s).phase == Phase::LastWrite && (
        r matches StreamAction::Write(c) && c@ == json_text(
            JsonView::Array(
                seq![
                    JsonView::Str("CLOSED"@),
                    JsonView::Str(old(s).client_sub@),
                    JsonView::Str(message@),
                ],
            ),
        )),
        event matches StreamEvent::Notified(Notification::Shutdown) ==> final(s).phase
            == Phase::LastWrite && (r matches StreamAction::Write(c) && c@ == json_text(
            JsonView::Array(
                seq![
                    JsonView::Str("CLOSED"@),
                    JsonView::Str(old(s).client_sub@),
                    JsonView::Str("error: upstream relay pool shut down"@),
                ],
            ),
        )),
        event is NotificationsClosed ==> final(s).phase == Phase::Ended && r is End,
        event matches StreamEvent::Poll { sink_active } ==> !sink_active ==> final(s).phase
            == Phase::Ended && r is End,
        r is End ==> event is NotificationsClosed || event == (StreamEvent::Poll {
            sink_active: false,
        }),
        final(s).phase == Phase::LastWrite ==> match event {
            StreamEvent::Notified(Notification::Shutdown) => true,
            StreamEvent::Notified(Notification::Closed { subscription_id, .. }) => subscription_id@
                == old(s).upstream_id@,
            _ => false,
        },
{
}

/// A chunk that was written to a client that reads leaves the stream open, unless
/// it was the last one; one that could not be written, or whose client is gone, ends
/// it. Until the report on a chunk nothing else is taken in, and of a stream that is
/// over nothing more comes.
pub proof fn law_report_on_a_chunk(s: &mut Subscription, event: StreamEvent, r: StreamAction)
    requires
        call_ensures(Subscription::step, (s, event), r),
        old(s).phase != Phase::Open,
    ensures
        final(s).client_sub == old(s).client_sub,
        final(s).upstream_id == old(s).upstream_id,
        old(s).phase == Phase::Writing ==> match event {
            StreamEvent::Written { sent: true, sink_active: true } => final(s).phase == Phase::Open
                && r is Wait,
            StreamEvent::Written { .. } => final(s).phase == Phase::Ended && r is End,
            _ => final(s).phase == Phase::Writing && r is Wait,
        },
        old(s).phase == Phase::LastWrite ==> match event {
            StreamEvent::Written { .. } => final(s).phase == Phase::Ended && r is End,
            _ => final(s).phase == Phase::LastWrite && r is Wait,
        },
        old(s).phase == Phase::Ended ==> final(s).phase == Phase::Ended && r is End,
{
}

/// The texts that a row of actions writes.
pub open spec fn chunks(actions: Seq<StreamAction>) -> Seq<Seq<char>>
    decreases actions.len(),
{
    if actions.len() == 0 {
        Seq::empty()
    } else {
        match actions.last() {
            StreamAction::Write(c) => chunks(actions.drop_last()).push(c@),
            _ => chunks(actions.drop_last()),
        }
    }
}

/// The texts of every `EVENT` and `EOSE` among `events` that is for the subscription
/// `upstream_id`, under the client's id.
pub open spec fn heard(
    events: Seq<StreamEvent>,
    upstream_id: Seq<char>,
    client_sub: Seq<char>,
) -> Seq<Seq<char>>
    decreases events.len(),
{
    if events.len() == 0 {
        Seq::empty()
    } else {
        let earlier = heard(events.drop_last(), upstream_id, client_sub);
        match events.last() {
            StreamEvent::Notified(
                Notification::Event { subscription_id, event },
            ) if subscription_id@ == upstream_id => earlier.push(
                json_text(
                    JsonView::Array(seq![JsonView::Str("EVENT"@), JsonView::Str(client_sub), event@]),
                ),
            ),
            StreamEvent::Notified(
                Notification::EndOfStoredEvents { subscription_id },
            ) if subscription_id@ == upstream_id => earlier.push(
                json_text(JsonView::Array(seq![JsonView::Str("EOSE"@), JsonView::Str(client_sub)])),
            ),
            _ => earlier,
        }
    }
}

/// Whether the last `EVENT` or `EOSE` for the subscription is not reported as
/// written yet.
pub open spec fn unreported(events: Seq<StreamEvent>, upstream_id: Seq<char>) -> bool
    decreases events.len(),
{
    events.len() > 0 && match events.last() {
        StreamEvent::Notified(Notification::Event { subscription_id, .. }) => subscription_id@
            == upstream_id,
        StreamEvent::Notified(Notification::EndOfStoredEvents { subscription_id }) => subscription_id@
            == upstream_id,
        StreamEvent::Notified(_) => false,
        StreamEvent::Written { .. } => false,
        _ => unreported(events.drop_last(), upstream_id),
    }
}

/// Whether nothing among `events` ends the subscription: neither the relay nor the
/// pool closes it, the client reads and every chunk is written, each before the next
/// report of the pool.
pub open spec fn undisturbed(events: Seq<StreamEvent>, upstream_id: Seq<char>) -> bool
    decreases events.len(),
{
    events.len() > 0 ==> undisturbed(events.drop_last(), upstream_id) && match events.last() {
        StreamEvent::Notified(n) => !unreported(events.drop_last(), upstream_id) && match n {
            Notification::Closed { subscription_id, .. } => subscription_id@ != upstream_id,
            Notification::Shutdown => false,
            _ => true,
        },
        StreamEvent::Written { sent, sink_active } => sent && sink_active,
        StreamEvent::NotificationsClosed => false,
        StreamEvent::Poll { sink_active } => sink_active,
        StreamEvent::Lagged => true,
    }
}

/// An undisturbed stream carries the whole subscription: every `EVENT` and `EOSE`
/// for it is written, each once and in order, nothing else is, and the stream stays
/// open. `states` are those of a subscription that takes `events` in, one call of
/// `step` for each, and `actions` what is to be done.
pub proof fn law_undisturbed_stream_is_complete(
    states: Seq<Subscription>,
    events: Seq<StreamEvent>,
    actions: Seq<StreamAction>,
)
    requires
        states.len() == events.len() + 1,
        actions.len() == events.len(),
        forall|i: int|
            #![trigger events[i]]
            0 <= i < events.len() ==> exists|s: &mut Subscription|
                *s == states[i] && *final(s) == states[i + 1] && #[trigger] call_ensures(
                    Subscription::step,
                    (s, events[i]),
                    actions[i],
                ),
        states[0].phase == Phase::Open,
        undisturbed(events, states[0].upstream_id@),
    ensures
        chunks(actions) == heard(events, states[0].upstream_id@, states[0].client_sub@),
        states.last().phase == if unreported(events, states[0].upstream_id@) {
            Phase::Writing
        } else {
            Phase::Open
        },
        states.last().upstream_id == states[0].upstream_id,
        states.last().client_sub == states[0].client_sub,
{
    assert forall|i: int| 0 <= i < events.len() implies is_step(
        states[i],
        #[trigger] events[i],
        actions[i],
        states[i + 1],
    ) by {
        let s = choose|s: &mut Subscription|
            *s == states[i] && *final(s) == states[i + 1] && #[trigger] call_ensures(
                Subscription::step,
                (s, events[i]),
                actions[i],
            );
        assert(*s == states[i]);
    }
    lemma_undisturbed_run(states, events, actions);
}

spec fn is_step(
    before: Subscription,
    event: StreamEvent,
    action: StreamAction,
    after: Subscription,
) -> bool {
    let next = step_of(before.phase, event, before.upstream_id@, before.client_sub@);
    &&& after.client_sub == before.client_sub
    &&& after.upstream_id == before.upstream_id
    &&& after.phase == next.0
    &&& acts_on(action, next.1)
}

proof fn lemma_undisturbed_run(
    states: Seq<Subscription>,
    events: Seq<StreamEvent>,
    actions: Seq<StreamAction>,
)
    requires
        states.len() == events.len() + 1,
        actions.len() == events.len(),
        forall|i: int|
            0 <= i < events.len() ==> is_step(
                states[i],
                #[trigger] events[i],
                actions[i],
                states[i + 1],
            ),
        states[0].phase == Phase::Open,
        undisturbed(events, states[0].upstream_id@),
    ensures
        chunks(actions) == heard(events, states[0].upstream_id@, states[0].client_sub@),
        states.last().phase == if unreported(events, states[0].upstream_id@) {
            Phase::Writing
        } else {
            Phase::Open
        },
        states.last().upstream_id == states[0].upstream_id,
        states.last().client_sub == states[0].client_sub,
    decreases events.len(),
{
    if events.len() > 0 {
        let n = events.len() - 1;
        let earlier = events.drop_last();
        let before = states.drop_last();
        let asked = actions.drop_last();
        assert forall|i: int| 0 <= i < earlier.len() implies is_step(
            before[i],
            #[trigger] earlier[i],
            asked[i],
            before[i + 1],
        ) by {
            assert(earlier[i] == events[i]);
        }
        lemma_undisturbed_run(before, earlier, asked);
        assert(events[n] == events.last());
        assert(before.last() == states[n]);
    }
}

/// A client's subscription starts with any filters but none at all, under the
/// client's name, and open.
pub proof fn law_subscription_starts_open(
    proxy: Proxy,
    client_sub: String,
    filters: Vec<nostr_sdk::Filter>,
    upstream_id: String,
    r: Result<Subscription, ProxyError>,
)
    requires
        call_ensures(Proxy::subscribe_as, (&proxy, client_sub, &filters, upstream_id), r)
            || call_ensures(Proxy::subscribe, (&proxy, client_sub, &filters), r),
    ensures
        r is Ok <==> filters@.len() > 0,
        r matches Ok(s) ==> s.client_sub == client_sub && s.phase == Phase::Open,
        r matches Err(e) ==> e is EmptyFilters,
        call_ensures(Proxy::subscribe_as, (&proxy, client_sub, &filters, upstream_id), r) ==> (
        r matches Ok(s) ==> s.upstream_id == upstream_id),
        call_ensures(Proxy::subscribe, (&proxy, client_sub, &filters), r) ==> (r matches Ok(s)
            ==> s.upstream_id@.len() == 32 && forall|i: int|
            0 <= i < 32 ==> ('0' <= #[trigger] s.upstream_id@[i] <= '9' || 'a' <= s.upstream_id@[i]
                <= 'f')),
{
    if let Ok(s) = r {
        if call_ensures(Proxy::subscribe, (&proxy, client_sub, &filters), r) {
            assert forall|i: int| 0 <= i < 32 implies ('0' <= #[trigger] s.upstream_id@[i] <= '9'
                || 'a' <= s.upstream_id@[i] <= 'f') by {
                assert(crate::text::is_hex_digit(s.upstream_id@[i]));
            }
        }
    }
}

/// A subscription goes on exactly where the upstream relay took it, and is wound up
/// there in every case; the client's stream is closed where the client still reads.
pub proof fn law_subscription_is_wound_up(
    s: Subscription,
    reply: Result<(), String>,
    r: Result<Subscription, ProxyError>,
    sink_active: bool,
    left: Vec<Unwind>,
)
    requires
        call_ensures(Subscription::opened, (s, reply), r),
        call_ensures(Subscription::unwind, (s, sink_active), left),
    ensures
        reply is Ok ==> (r matches Ok(same) && same == s),
        reply matches Err(cause) ==> (r matches Err(ProxyError::Subscribe(told)) && told@ == cause@),
        left@.len() == if sink_active {
            2int
        } else {
            1
        },
        left@[0] == Unwind::Unsubscribe(s.upstream_id),
        sink_active ==> left@[1] is CloseSink,
{
}

} // verus!
