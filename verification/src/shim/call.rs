//! One call of `subscribe`: what reaches the client from its stream.

use vstd::prelude::*;

use crate::json::{json_text, reads_back, JsonView};
use crate::server::proxy::closed_message;
use crate::shim::translate::closed_frame;

verus! {

/// What a server is told when a client closes a subscription.
pub const CANCEL_REASON: &'static str = "client closed subscription";

/// Where a call stands.
#[derive(Debug, Clone, Copy, PartialEq, Eq, Structural)]
pub enum CallPhase {
    /// The stream is being opened.
    Connecting,
    /// Chunks are awaited.
    Streaming,
    /// A chunk is on its way to the client.
    Sending,
    /// The last frame is on its way to the client.
    LastSend,
    /// The call is over.
    Done,
}

/// What happens to a call.
#[derive(Debug, PartialEq)]
pub enum CallEvent {
    /// The stream is open.
    Opened,
    /// The stream could not be opened.
    OpenFailed(String),
    /// A chunk came.
    Chunk(String),
    /// The stream broke.
    StreamFailed(String),
    /// The stream is over.
    StreamEnded,
    /// The frame was handed on, or the client is gone.
    Sent { delivered: bool },
    /// The client closed the subscription, or replaced it, or left.
    Cancelled,
}

/// What is to be done next.
#[derive(Debug, PartialEq)]
pub enum CallAction {
    /// Await the next event.
    Wait,
    /// Hand this frame on to the client, and report on it.
    Send(String),
    /// Tear the stream down at the server, with this reason; then the call is
    /// over.
    Cancel(&'static str),
    /// The call is over.
    Return,
}

/// What a step asks for: to wait, to hand a chunk on, to say that the
/// subscription is closed and why, to tear the stream down, or to end.
pub enum CallStep {
    Wait,
    Forward(Seq<char>),
    Closed(Seq<char>),
    Cancel,
    Return,
}

/// The phase after an event, and what is asked for.
pub open spec fn call_step(phase: CallPhase, e: CallEvent) -> (CallPhase, CallStep) {
    match phase {
        CallPhase::Connecting => match e {
            CallEvent::Opened => (CallPhase::Streaming, CallStep::Wait),
            CallEvent::OpenFailed(cause) => (CallPhase::LastSend, CallStep::Closed(cause@)),
            CallEvent::Cancelled => (CallPhase::Done, CallStep::Return),
            _ => (CallPhase::Connecting, CallStep::Wait),
        },
        CallPhase::Streaming => match e {
            CallEvent::Chunk(c) => (CallPhase::Sending, CallStep::Forward(c@)),
            CallEvent::StreamFailed(cause) => (CallPhase::LastSend, CallStep::Closed(cause@)),
            CallEvent::StreamEnded => (CallPhase::Done, CallStep::Return),
            CallEvent::Cancelled => (CallPhase::Done, CallStep::Cancel),
            _ => (CallPhase::Streaming, CallStep::Wait),
        },
        CallPhase::Sending => match e {
            CallEvent::Sent { delivered } => if delivered {
                (CallPhase::Streaming, CallStep::Wait)
            } else {
                (CallPhase::Done, CallStep::Return)
            },
            _ => (CallPhase::Sending, CallStep::Wait),
        },
        CallPhase::LastSend => match e {
            CallEvent::Sent { .. } => (CallPhase::Done, CallStep::Return),
            _ => (CallPhase::LastSend, CallStep::Wait),
        },
        CallPhase::Done => (CallPhase::Done, CallStep::Return),
    }
}

/// Whether an action is what a step asks for.
pub open spec fn carries_out(action: CallAction, step: CallStep, sub_id: Seq<char>) -> bool {
    match (action, step) {
        (CallAction::Wait, CallStep::Wait) => true,
        (CallAction::Send(text), CallStep::Forward(c)) => text@ == c,
        (CallAction::Send(text), CallStep::Closed(cause)) => text@ == json_text(
            closed_message(sub_id, cause),
        ) && reads_back(text@, closed_message(sub_id, cause)),
        (CallAction::Cancel(reason), CallStep::Cancel) => reason@ == CANCEL_REASON@,
        (CallAction::Return, CallStep::Return) => true,
        _ => false,
    }
}

/// One call of `subscribe` for the subscription `sub_id`.
#[derive(Debug, PartialEq)]
pub struct SubscribeCall {
    pub sub_id: String,
    pub phase: CallPhase,
}

impl SubscribeCall {
    pub fn new(sub_id: String) -> (r: SubscribeCall)
        ensures
            r.sub_id == sub_id,
            r.phase == CallPhase::Connecting,
    {
        SubscribeCall { sub_id, phase: CallPhase::Connecting }
    }

    /// Takes an event in, and says what to do next.
    pub fn step(&mut self, event: CallEvent) -> (r: CallAction)
        ensures
            final(self).sub_id == old(self).sub_id,
            final(self).phase == call_step(old(self).phase, event).0,
            carries_out(r, call_step(old(self).phase, event).1, old(self).sub_id@),
    {
        match self.phase {
            CallPhase::Connecting => match event {
                CallEvent::Opened => {
                    self.phase = CallPhase::Streaming;
                    CallAction::Wait
                },
                CallEvent::OpenFailed(cause) => {
                    self.phase = CallPhase::LastSend;
                    CallAction::Send(closed_frame(self.sub_id.as_str(), cause.as_str()))
                },
                CallEvent::Cancelled => {
                    self.phase = CallPhase::Done;
                    CallAction::Return
                },
                _ => CallAction::Wait,
            },
            CallPhase::Streaming => match event {
                CallEvent::Chunk(c) => {
                    self.phase = CallPhase::Sending;
                    CallAction::Send(c)
                },
                CallEvent::StreamFailed(cause) => {
                    self.phase = CallPhase::LastSend;
                    CallAction::Send(closed_frame(self.sub_id.as_str(), cause.as_str()))
                },
                CallEvent::StreamEnded => {
                    self.phase = CallPhase::Done;
                    CallAction::Return
                },
                CallEvent::Cancelled => {
                    self.phase = CallPhase::Done;
                    CallAction::Cancel(CANCEL_REASON)
                },
                _ => CallAction::Wait,
            },
            CallPhase::Sending => match event {
                CallEvent::Sent { delivered } => if delivered {
                    self.phase = CallPhase::Streaming;
                    CallAction::Wait
                } else {
                    self.phase = CallPhase::Done;
                    CallAction::Return
                },
                _ => CallAction::Wait,
            },
            CallPhase::LastSend => match event {
                CallEvent::Sent { .. } => {
                    self.phase = CallPhase::Done;
                    CallAction::Return
                },
                _ => CallAction::Wait,
            },
            CallPhase::Done => CallAction::Return,
        }
    }
}

/// The chunks that a run hands on.
pub open spec fn forwarded(phase: CallPhase, events: Seq<CallEvent>) -> Seq<Seq<char>>
    decreases events.len(),
{
    if events.len() == 0 {
        Seq::empty()
    } else {
        let next = call_step(phase, events[0]);
        let rest = forwarded(next.0, events.skip(1));
        match next.1 {
            CallStep::Forward(c) => seq![c] + rest,
            _ => rest,
        }
    }
}

/// The chunks that a run takes from the stream: those that come while one is
/// awaited.
pub open spec fn taken(phase: CallPhase, events: Seq<CallEvent>) -> Seq<Seq<char>>
    decreases events.len(),
{
    if events.len() == 0 {
        Seq::empty()
    } else {
        let rest = taken(call_step(phase, events[0]).0, events.skip(1));
        match events[0] {
            CallEvent::Chunk(c) => if phase == CallPhase::Streaming {
                seq![c@] + rest
            } else {
                rest
            },
            _ => rest,
        }
    }
}

/// How often a run says that the subscription is closed.
pub open spec fn closings(phase: CallPhase, events: Seq<CallEvent>) -> nat
    decreases events.len(),
{
    if events.len() == 0 {
        0
    } else {
        let next = call_step(phase, events[0]);
        closings(next.0, events.skip(1)) + match next.1 {
            CallStep::Closed(_) => 1nat,
            _ => 0,
        }
    }
}

/// Chunks pass through as they are: each that is taken from the stream is handed
/// on once, in order, and nothing else is.
pub proof fn law_chunks_pass_through(phase: CallPhase, events: Seq<CallEvent>)
    ensures
        forwarded(phase, events) == taken(phase, events),
    decreases events.len(),
{
    if events.len() > 0 {
        law_chunks_pass_through(call_step(phase, events[0]).0, events.skip(1));
    }
}

/// Once a call is over, nothing more reaches the client.
pub proof fn law_nothing_after_the_end(events: Seq<CallEvent>)
    ensures
        forwarded(CallPhase::Done, events).len() == 0,
        closings(CallPhase::Done, events) == 0,
    decreases events.len(),
{
    if events.len() > 0 {
        law_nothing_after_the_end(events.skip(1));
    }
}

/// Cancelling a call that awaits something ends it at once; what is open at the
/// server is torn down.
pub proof fn law_cancel_ends_the_call(phase: CallPhase)
    requires
        phase == CallPhase::Connecting || phase == CallPhase::Streaming,
    ensures
        call_step(phase, CallEvent::Cancelled).0 == CallPhase::Done,
        call_step(phase, CallEvent::Cancelled).1 is Cancel <==> phase == CallPhase::Streaming,
{
}

/// A client hears at most once that a subscription is closed by an error, and
/// nothing after that.
pub proof fn law_closed_at_most_once(phase: CallPhase, events: Seq<CallEvent>)
    ensures
        closings(phase, events) <= 1,
        phase == CallPhase::LastSend ==> closings(phase, events) == 0 && forwarded(
            phase,
            events,
        ).len() == 0,
    decreases events.len(),
{
    if events.len() > 0 {
        let next = call_step(phase, events[0]).0;
        law_closed_at_most_once(next, events.skip(1));
        law_nothing_after_the_end(events.skip(1));
    }
}

/// A stream that is open hands every chunk on as it is, whatever it says, and goes
/// on streaming once the client has it. The client is told why a stream broke, a
/// stream that the client closes is torn down at the server, and one that is over
/// ends the call; nothing else does anything.
pub proof fn law_open_call_streams(call: &mut SubscribeCall, event: CallEvent, r: CallAction)
    requires
        call_ensures(SubscribeCall::step, (call, event), r),
        old(call).phase == CallPhase::Streaming,
    ensures
        final(call).sub_id == old(call).sub_id,
        match event {
            CallEvent::Chunk(c) => final(call).phase == CallPhase::Sending && (
            r matches CallAction::Send(text) && text@ == c@),
            CallEvent::StreamFailed(cause) => final(call).phase == CallPhase::LastSend && (
            r matches CallAction::Send(text) && text@ == json_text(
                JsonView::Array(
                    seq![
                        JsonView::Str("CLOSED"@),
                        JsonView::Str(old(call).sub_id@),
                        JsonView::Str(cause@),
                    ],
                ),
            )),
            CallEvent::StreamEnded => final(call).phase == CallPhase::Done && r is Return,
            CallEvent::Cancelled => final(call).phase == CallPhase::Done && (
            r matches CallAction::Cancel(reason) && reason@ == "client closed subscription"@),
            CallEvent::Opened => final(call).phase == CallPhase::Streaming && r is Wait,
            CallEvent::OpenFailed(_) => final(call).phase == CallPhase::Streaming && r is Wait,
            CallEvent::Sent { .. } => final(call).phase == CallPhase::Streaming && r is Wait,
        },
{
}

/// A call streams as soon as its stream is open. The client is told why one could
/// not be opened, and a client that leaves before ends the call.
pub proof fn law_call_opens(call: &mut SubscribeCall, event: CallEvent, r: CallAction)
    requires
        call_ensures(SubscribeCall::step, (call, event), r),
        old(call).phase == CallPhase::Connecting,
    ensures
        final(call).sub_id == old(call).sub_id,
        match event {
            CallEvent::Opened => final(call).phase == CallPhase::Streaming && r is Wait,
            CallEvent::OpenFailed(cause) => final(call).phase == CallPhase::LastSend && (
            r matches CallAction::Send(text) && text@ == json_text(
                JsonView::Array(
                    seq![
                        JsonView::Str("CLOSED"@),
                        JsonView::Str(old(call).sub_id@),
                        JsonView::Str(cause@),
                    ],
                ),
            )),
            CallEvent::Cancelled => final(call).phase == CallPhase::Done && r is Return,
            _ => final(call).phase == CallPhase::Connecting && r is Wait,
        },
{
}

/// A frame that reached the client leaves the call streaming, unless it was the
/// last one; a client that is gone ends it. Until the report on a frame nothing else
/// is taken in, and of a call that is over nothing more comes.
pub proof fn law_report_on_a_frame(call: &mut SubscribeCall, event: CallEvent, r: CallAction)
    requires
        call_ensures(SubscribeCall::step, (call, event), r),
    ensures
        final(call).sub_id == old(call).sub_id,
        old(call).phase == CallPhase::Sending ==> match event {
            CallEvent::Sent { delivered } => if delivered {
                final(call).phase == CallPhase::Streaming && r is Wait
            } else {
                final(call).phase == CallPhase::Done && r is Return
            },
            _ => final(call).phase == CallPhase::Sending && r is Wait,
        },
        old(call).phase == CallPhase::LastSend ==> match event {
            CallEvent::Sent { .. } => final(call).phase == CallPhase::Done && r is Return,
            _ => final(call).phase == CallPhase::LastSend && r is Wait,
        },
        old(call).phase == CallPhase::Done ==> final(call).phase == CallPhase::Done && r is Return,
{
}

/// A call starts by opening its stream.
pub proof fn law_call_starts_connecting(sub_id: String, r: SubscribeCall)
    requires
        call_ensures(SubscribeCall::new, (sub_id,), r),
    ensures
        r.sub_id == sub_id,
        r.phase == CallPhase::Connecting,
{
}

/// The frames that a row of actions hands on.
pub open spec fn frames_of(actions: Seq<CallAction>) -> Seq<Seq<char>>
    decreases actions.len(),
{
    if actions.len() == 0 {
        Seq::empty()
    } else {
        match actions.last() {
            CallAction::Send(text) => frames_of(actions.drop_last()).push(text@),
            _ => frames_of(actions.drop_last()),
        }
    }
}

/// Every chunk among `events`.
pub open spec fn chunks_of(events: Seq<CallEvent>) -> Seq<Seq<char>>
    decreases events.len(),
{
    if events.len() == 0 {
        Seq::empty()
    } else {
        match events.last() {
            CallEvent::Chunk(c) => chunks_of(events.drop_last()).push(c@),
            _ => chunks_of(events.drop_last()),
        }
    }
}

/// Whether the last chunk is not reported as sent yet.
pub open spec fn unsent(events: Seq<CallEvent>) -> bool
    decreases events.len(),
{
    events.len() > 0 && match events.last() {
        CallEvent::Chunk(_) => true,
        CallEvent::Sent { .. } => false,
        _ => unsent(events.drop_last()),
    }
}

/// Whether nothing among `events` ends a call: the stream neither breaks nor ends,
/// the client does not leave, and each chunk is reported as sent before the next.
pub open spec fn unbroken(events: Seq<CallEvent>) -> bool
    decreases events.len(),
{
    events.len() > 0 ==> unbroken(events.drop_last()) && match events.last() {
        CallEvent::Chunk(_) => !unsent(events.drop_last()),
        CallEvent::Sent { delivered } => delivered,
        CallEvent::Opened => true,
        _ => false,
    }
}

/// An unbroken stream reaches the client whole: every chunk of it is handed on as
/// it is, each once and in order, nothing else is, and the call goes on. `states` are
/// those of a call that takes `events` in, one call of `step` for each, and `actions`
/// what is to be done.
pub proof fn law_unbroken_call_is_complete(
    states: Seq<SubscribeCall>,
    events: Seq<CallEvent>,
    actions: Seq<CallAction>,
)
    requires
        states.len() == events.len() + 1,
        actions.len() == events.len(),
        forall|i: int|
            #![trigger events[i]]
            0 <= i < events.len() ==> exists|call: &mut SubscribeCall|
                *call == states[i] && *final(call) == states[i + 1] && #[trigger] call_ensures(
                    SubscribeCall::step,
                    (call, events[i]),
                    actions[i],
                ),
        states[0].phase == CallPhase::Streaming,
        unbroken(events),
    ensures
        frames_of(actions) == chunks_of(events),
        states.last().phase == if unsent(events) {
            CallPhase::Sending
        } else {
            CallPhase::Streaming
        },
{
    assert forall|i: int| 0 <= i < events.len() implies is_step(
        states[i],
        #[trigger] events[i],
        actions[i],
        states[i + 1],
    ) by {
        let call = choose|call: &mut SubscribeCall|
            *call == states[i] && *final(call) == states[i + 1] && #[trigger] call_ensures(
                SubscribeCall::step,
                (call, events[i]),
                actions[i],
            );
        assert(*call == states[i]);
    }
    lemma_unbroken_run(states, events, actions);
}

spec fn is_step(
    before: SubscribeCall,
    event: CallEvent,
    action: CallAction,
    after: SubscribeCall,
) -> bool {
    &&& after.phase == call_step(before.phase, event).0
    &&& carries_out(action, call_step(before.phase, event).1, before.sub_id@)
}

proof fn lemma_unbroken_run(
    states: Seq<SubscribeCall>,
    events: Seq<CallEvent>,
    actions: Seq<CallAction>,
)
    requires
        states.len() == events.len() + 1,
        actions.len() == events.len(),
        forall|i: int|
            0 <= i < events.len() ==> is_step(
                states[i],
                #[trigger] events[i],
                actions[i],
                states[i + 1],
            ),
        states[0].phase == CallPhase::Streaming,
        unbroken(events),
    ensures
        frames_of(actions) == chunks_of(events),
        states.last().phase == if unsent(events) {
            CallPhase::Sending
        } else {
            CallPhase::Streaming
        },
    decreases events.len(),
{
    if events.len() > 0 {
        let n = events.len() - 1;
        let earlier = events.drop_last();
        let before = states.drop_last();
        let asked = actions.drop_last();
        assert forall|i: int| 0 <= i < earlier.len() implies is_step(
            before[i],
            #[trigger] earlier[i],
            asked[i],
            before[i + 1],
        ) by {
            assert(earlier[i] == events[i]);
        }
        lemma_unbroken_run(before, earlier, asked);
        assert(events[n] == events.last());
        assert(before.last() == states[n]);
    }
}

} // verus!
