//! One client's connection: its subscriptions, and what each frame asks for.

use vstd::prelude::*;

use crate::json::{
    bool_field, entries_view, json_array, json_text, reads_back, str_field, values, Json, JsonView,
};
use crate::server::proxy::{push_field, str_json};
use crate::shim::path::{parse_path, path_of, ParsedPath, ParsedPathView, PathError};
use crate::shim::translate::{
    frame_msg_of, msg_view, notice_frame, notice_message, ok_frame, ok_message,
    parse_client_frame, ClientMsg, ClientMsgView,
};
use crate::text::{same, texts};

verus! {

/// How many frames may wait for a slow client.
pub const OUTBOUND_BUF: usize = 256;

/// What comes from the client.
#[derive(Debug, PartialEq)]
pub enum Inbound {
    /// A text frame.
    Text(String),
    /// A binary, ping or pong frame.
    Other,
    /// A close frame, an error, or the end.
    Gone,
}

/// What is to be done for the connection.
#[derive(Debug, PartialEq)]
pub enum Action {
    /// Cancel the call behind this subscription.
    Cancel(String),
    /// Call `subscribe` for this subscription, with these arguments.
    Subscribe { sub_id: String, arguments: Json },
    /// Call `publish_event` with these arguments, and answer for this event.
    Publish { event: Json, arguments: Json },
    /// Send this frame to the client.
    Send(String),
    /// Wind the connection up.
    End,
}

/// What an action asks for.
pub enum Request {
    Cancel(Seq<char>),
    Subscribe { sub_id: Seq<char>, arguments: Map<Seq<char>, JsonView> },
    Publish { event: JsonView, arguments: Map<Seq<char>, JsonView> },
    Send(JsonView),
    End,
}

/// The arguments of a call of `subscribe`.
pub open spec fn subscribe_arguments(sub_id: Seq<char>, filters: Seq<JsonView>) -> Map<
    Seq<char>,
    JsonView,
> {
    Map::empty().insert("subscription_id"@, JsonView::Str(sub_id)).insert(
        "filters"@,
        JsonView::Array(filters),
    )
}

/// The arguments of a call of `publish_event`.
pub open spec fn publish_arguments(event: JsonView) -> Map<Seq<char>, JsonView> {
    Map::empty().insert("event"@, event)
}

/// Whether an action is what is asked for.
pub open spec fn meets(action: Action, request: Request) -> bool {
    match (action, request) {
        (Action::Cancel(a), Request::Cancel(b)) => a@ == b,
        (
            Action::Subscribe { sub_id, arguments },
            Request::Subscribe { sub_id: sub, arguments: args },
        ) => sub_id@ == sub && arguments@ == JsonView::Object(args),
        (
            Action::Publish { event, arguments },
            Request::Publish { event: e, arguments: args },
        ) => event@ == e && arguments@ == JsonView::Object(args),
        (Action::Send(text), Request::Send(v)) => text@ == json_text(v) && reads_back(text@, v),
        (Action::End, Request::End) => true,
        _ => false,
    }
}

pub open spec fn all_meet(actions: Seq<Action>, requests: Seq<Request>) -> bool {
    actions.len() == requests.len() && forall|i: int|
        0 <= i < actions.len() ==> meets(#[trigger] actions[i], requests[i])
}

/// What a message asks for, with the subscriptions in `live`: a subscription
/// under a name in use replaces the one that bore it.
pub open spec fn requests_of(live: Set<Seq<char>>, msg: Option<ClientMsgView>) -> Seq<Request> {
    match msg {
        Some(ClientMsgView::Req { sub_id, filters }) => {
            let opening = Request::Subscribe {
                sub_id,
                arguments: subscribe_arguments(sub_id, filters),
            };
            if live.contains(sub_id) {
                seq![Request::Cancel(sub_id), opening]
            } else {
                seq![opening]
            }
        },
        Some(ClientMsgView::Close { sub_id }) => if live.contains(sub_id) {
            seq![Request::Cancel(sub_id)]
        } else {
            Seq::empty()
        },
        Some(ClientMsgView::Publish(event)) => seq![
            Request::Publish { event, arguments: publish_arguments(event) },
        ],
        None => seq![Request::Send(notice_message("unrecognized frame"@))],
    }
}

/// The subscriptions after a message.
pub open spec fn live_after(live: Set<Seq<char>>, msg: Option<ClientMsgView>) -> Set<Seq<char>> {
    match msg {
        Some(ClientMsgView::Req { sub_id, .. }) => live.insert(sub_id),
        Some(ClientMsgView::Close { sub_id }) => live.remove(sub_id),
        _ => live,
    }
}

/// What happens on a connection, as its subscriptions see it.
pub enum InboundView {
    Text(Seq<char>),
    Other,
    Gone,
}

impl View for Inbound {
    type V = InboundView;

    open spec fn view(&self) -> InboundView {
        match self {
            Inbound::Text(text) => InboundView::Text(text@),
            Inbound::Other => InboundView::Other,
            Inbound::Gone => InboundView::Gone,
        }
    }
}

/// What a frame asks for.
pub open spec fn frame_requests(live: Set<Seq<char>>, frame: InboundView) -> Seq<Request> {
    match frame {
        InboundView::Text(text) => requests_of(live, frame_msg_of(text)),
        InboundView::Other => Seq::empty(),
        InboundView::Gone => seq![Request::End],
    }
}

/// The subscriptions after a frame.
pub open spec fn frame_live(live: Set<Seq<char>>, frame: InboundView) -> Set<Seq<char>> {
    match frame {
        InboundView::Text(text) => live_after(live, frame_msg_of(text)),
        _ => live,
    }
}

/// A connection and the names of its subscriptions, each once.
#[derive(Debug, PartialEq)]
pub struct Connection {
    live: Vec<String>,
}

impl Connection {
    /// The names in use, in the order in which they were taken.
    pub closed spec fn names(&self) -> Seq<Seq<char>> {
        texts(self.live@)
    }

    /// No name is in use twice.
    pub open spec fn wf(&self) -> bool {
        self.names().no_duplicates()
    }

    pub open spec fn live(&self) -> Set<Seq<char>> {
        self.names().to_set()
    }

    pub fn new() -> (r: Connection)
        ensures
            r.wf(),
            r.live() == Set::<Seq<char>>::empty(),
    {
        let live: Vec<String> = Vec::new();
        assert(texts(live@) =~= Seq::empty());
        let r = Connection { live };
        assert(r.live() =~= Set::empty());
        r
    }

    /// Takes a name out of use; says whether it was in use.
    fn release(&mut self, sub_id: &str) -> (r: bool)
        requires
            old(self).wf(),
        ensures
            final(self).wf(),
            r == old(self).live().contains(sub_id@),
            final(self).live() == old(self).live().remove(sub_id@),
    {
        let ghost before = self.names();
        let size: usize = self.live.len();
        for i in 0..size
            invariant
                size == self.live@.len(),
                self.names() == before,
                before == old(self).names(),
                old(self).wf(),
                forall|j: int| 0 <= j < i ==> #[trigger] before[j] != sub_id@,
        {
            assert(before[i as int] == self.live@[i as int]@);
            if same(self.live[i].as_str(), sub_id) {
                let gone: String = self.live.remove(i);
                assert(self.names() =~= before.remove(i as int));
                proof {
                    lemma_removed(before, i as int);
                    assert(before.contains(before[i as int]));
                    assert(old(self).live().contains(sub_id@));
                    assert(self.live() =~= old(self).live().remove(sub_id@));
                }
                return true;
            }
        }
        assert(!before.contains(sub_id@));
        assert(self.live() =~= old(self).live().remove(sub_id@));
        false
    }

    /// Takes a name into use that is not.
    fn take(&mut self, sub_id: &str)
        requires
            old(self).wf(),
            !old(self).live().contains(sub_id@),
        ensures
            final(self).wf(),
            final(self).live() == old(self).live().insert(sub_id@),
    {
        let ghost before = self.names();
        self.live.push(sub_id.to_owned());
        assert(self.names() =~= before.push(sub_id@));
        proof {
            lemma_pushed(before, sub_id@);
        }
        assert(self.live() =~= old(self).live().insert(sub_id@));
    }

    /// Takes a frame of the client in, and says what to do.
    pub fn on_frame(&mut self, frame: Inbound) -> (r: Vec<Action>)
        requires
            old(self).wf(),
        ensures
            final(self).wf(),
            final(self).live() == frame_live(old(self).live(), frame@),
            all_meet(r@, frame_requests(old(self).live(), frame@)),
    {
        match frame {
            Inbound::Text(text) => self.on_message(parse_client_frame(text.as_str())),
            Inbound::Other => Vec::new(),
            Inbound::Gone => vec![Action::End],
        }
    }

    /// Takes a message of the client in, and says what to do.
    pub fn on_message(&mut self, msg: Option<ClientMsg>) -> (r: Vec<Action>)
        requires
            old(self).wf(),
        ensures
            final(self).wf(),
            final(self).live() == live_after(old(self).live(), msg_view(msg)),
            all_meet(r@, requests_of(old(self).live(), msg_view(msg))),
    {
        let mut actions: Vec<Action> = Vec::new();
        match msg {
            Some(ClientMsg::Req { sub_id, filters }) => {
                if self.release(sub_id.as_str()) {
                    actions.push(Action::Cancel(sub_id.as_str().to_owned()));
                }
                self.take(sub_id.as_str());
                assert(self.live() =~= old(self).live().insert(sub_id@));
                let arguments: Json = subscribe_args(sub_id.as_str(), filters);
                actions.push(Action::Subscribe { sub_id, arguments });
            },
            Some(ClientMsg::Close { sub_id }) => {
                if self.release(sub_id.as_str()) {
                    actions.push(Action::Cancel(sub_id));
                }
            },
            Some(ClientMsg::Publish(event)) => {
                let arguments: Json = publish_args(event.clone());
                actions.push(Action::Publish { event, arguments });
            },
            None => {
                actions.push(Action::Send(notice_frame("unrecognized frame")));
            },
        }
        actions
    }

    /// Winds a connection up: every call behind a subscription is cancelled,
    /// each once. The transport stays for other connections.
    pub fn finish(self) -> (r: Vec<String>)
        requires
            self.wf(),
        ensures
            texts(r@) == self.names(),
            texts(r@).no_duplicates(),
            texts(r@).to_set() == self.live(),
    {
        self.live
    }
}

proof fn lemma_removed(names: Seq<Seq<char>>, at: int)
    requires
        names.no_duplicates(),
        0 <= at < names.len(),
    ensures
        names.remove(at).no_duplicates(),
        names.remove(at).to_set() == names.to_set().remove(names[at]),
{
    let left = names.remove(at);
    assert forall|i: int, j: int| 0 <= i < left.len() && 0 <= j < left.len() && i != j implies left[i]
        != left[j] by {
        let a = if i < at { i } else { i + 1 };
        let b = if j < at { j } else { j + 1 };
        assert(left[i] == names[a] && left[j] == names[b]);
    }
    assert forall|s: Seq<char>| left.contains(s) == (names.contains(s) && s != names[at]) by {
        if left.contains(s) {
            let i = choose|i: int| 0 <= i < left.len() && left[i] == s;
            let a = if i < at { i } else { i + 1 };
            assert(names[a] == s);
        }
        if names.contains(s) && s != names[at] {
            let a = choose|a: int| 0 <= a < names.len() && names[a] == s;
            let i = if a < at { a } else { a - 1 };
            assert(left[i] == s);
        }
    }
    assert(left.to_set() =~= names.to_set().remove(names[at]));
}

proof fn lemma_pushed(names: Seq<Seq<char>>, s: Seq<char>)
    requires
        names.no_duplicates(),
        !names.contains(s),
    ensures
        names.push(s).no_duplicates(),
        names.push(s).to_set() == names.to_set().insert(s),
{
    let more = names.push(s);
    assert forall|i: int, j: int| 0 <= i < more.len() && 0 <= j < more.len() && i != j implies more[i]
        != more[j] by {
        if i < names.len() {
            assert(names.contains(names[i]));
        }
        if j < names.len() {
            assert(names.contains(names[j]));
        }
    }
    assert forall|t: Seq<char>| more.contains(t) == (names.contains(t) || t == s) by {
        if names.contains(t) {
            let i = choose|i: int| 0 <= i < names.len() && names[i] == t;
            assert(more[i] == t);
        }
        if t == s {
            assert(more[names.len() as int] == t);
        }
    }
    assert(more.to_set() =~= names.to_set().insert(s));
}

fn subscribe_args(sub_id: &str, filters: Vec<Json>) -> (r: Json)
    ensures
        r@ == JsonView::Object(subscribe_arguments(sub_id@, values(filters@))),
{
    broadcast use {crate::json::lemma_object_view, crate::json::lemma_array_view};

    let mut entries: Vec<(String, Json)> = Vec::new();
    assert(entries_view(entries@) =~= Seq::empty());
    push_field(&mut entries, "subscription_id", str_json(sub_id));
    push_field(&mut entries, "filters", Json::Array(filters));
    Json::Object(entries)
}

fn publish_args(event: Json) -> (r: Json)
    ensures
        r@ == JsonView::Object(publish_arguments(event@)),
{
    broadcast use crate::json::lemma_object_view;

    let mut entries: Vec<(String, Json)> = Vec::new();
    assert(entries_view(entries@) =~= Seq::empty());
    push_field(&mut entries, "event", event);
    Json::Object(entries)
}

/// What a run of frames asks for.
pub open spec fn run_requests(live: Set<Seq<char>>, frames: Seq<InboundView>) -> Seq<Request>
    decreases frames.len(),
{
    if frames.len() == 0 {
        Seq::empty()
    } else {
        run_requests(live, frames.drop_last()) + frame_requests(
            run_live(live, frames.drop_last()),
            frames.last(),
        )
    }
}

/// The subscriptions after a run of frames.
pub open spec fn run_live(live: Set<Seq<char>>, frames: Seq<InboundView>) -> Set<Seq<char>>
    decreases frames.len(),
{
    if frames.len() == 0 {
        live
    } else {
        frame_live(run_live(live, frames.drop_last()), frames.last())
    }
}

/// How often a subscription is opened.
pub open spec fn opened(requests: Seq<Request>, sub_id: Seq<char>) -> nat
    decreases requests.len(),
{
    if requests.len() == 0 {
        0
    } else {
        opened(requests.drop_last(), sub_id) + match requests.last() {
            Request::Subscribe { sub_id: s, .. } => if s == sub_id {
                1nat
            } else {
                0
            },
            _ => 0,
        }
    }
}

/// How often a subscription is cancelled.
pub open spec fn cancelled(requests: Seq<Request>, sub_id: Seq<char>) -> nat
    decreases requests.len(),
{
    if requests.len() == 0 {
        0
    } else {
        cancelled(requests.drop_last(), sub_id) + match requests.last() {
            Request::Cancel(s) => if s == sub_id {
                1nat
            } else {
                0
            },
            _ => 0,
        }
    }
}

proof fn lemma_counts_add(a: Seq<Request>, b: Seq<Request>, sub_id: Seq<char>)
    ensures
        opened(a + b, sub_id) == opened(a, sub_id) + opened(b, sub_id),
        cancelled(a + b, sub_id) == cancelled(a, sub_id) + cancelled(b, sub_id),
    decreases b.len(),
{
    if b.len() == 0 {
        assert(a + b =~= a);
    } else {
        assert((a + b).drop_last() =~= a + b.drop_last());
        assert((a + b).last() == b.last());
        lemma_counts_add(a, b.drop_last(), sub_id);
    }
}

proof fn lemma_frame_counts(live: Set<Seq<char>>, frame: InboundView, sub_id: Seq<char>)
    ensures
        ({
            let asked = frame_requests(live, frame);
            let before: nat = if live.contains(sub_id) {
                1
            } else {
                0
            };
            let after: nat = if frame_live(live, frame).contains(sub_id) {
                1
            } else {
                0
            };
            before + opened(asked, sub_id) == after + cancelled(asked, sub_id)
        }),
{
    reveal_with_fuel(opened, 3);
    reveal_with_fuel(cancelled, 3);
    let asked = frame_requests(live, frame);
    if asked.len() == 2 {
        assert(asked.drop_last() =~= seq![asked[0]]);
    }
}

/// At every moment the subscriptions in use are those that were opened and not
/// cancelled since, and of each name there is at most one.
pub proof fn law_live_are_opened_and_not_cancelled(frames: Seq<InboundView>, sub_id: Seq<char>)
    ensures
        ({
            let asked = run_requests(Set::empty(), frames);
            let live: nat = if run_live(Set::empty(), frames).contains(sub_id) {
                1
            } else {
                0
            };
            opened(asked, sub_id) == cancelled(asked, sub_id) + live
        }),
    decreases frames.len(),
{
    if frames.len() > 0 {
        let earlier = frames.drop_last();
        law_live_are_opened_and_not_cancelled(earlier, sub_id);
        let live = run_live(Set::empty(), earlier);
        lemma_frame_counts(live, frames.last(), sub_id);
        lemma_counts_add(
            run_requests(Set::empty(), earlier),
            frame_requests(live, frames.last()),
            sub_id,
        );
    }
}

/// The requests that wind a connection up.
pub open spec fn finish_requests(names: Seq<Seq<char>>) -> Seq<Request> {
    names.map_values(|s: Seq<char>| Request::Cancel(s))
}

proof fn lemma_finish_counts(names: Seq<Seq<char>>, sub_id: Seq<char>)
    requires
        names.no_duplicates(),
    ensures
        opened(finish_requests(names), sub_id) == 0,
        cancelled(finish_requests(names), sub_id) == if names.contains(sub_id) {
            1nat
        } else {
            0
        },
    decreases names.len(),
{
    if names.len() > 0 {
        let less = names.drop_last();
        assert(less.no_duplicates());
        lemma_finish_counts(less, sub_id);
        assert(finish_requests(names).drop_last() =~= finish_requests(less));
        let last = names.last();
        assert(!less.contains(last)) by {
            if less.contains(last) {
                let i = choose|i: int| 0 <= i < less.len() && less[i] == last;
                assert(names[i] == names[names.len() - 1]);
            }
        }
        assert(names.contains(sub_id) == (less.contains(sub_id) || last == sub_id)) by {
            if less.contains(sub_id) {
                let i = choose|i: int| 0 <= i < less.len() && less[i] == sub_id;
                assert(names[i] == sub_id);
            }
            if last == sub_id {
                assert(names[names.len() - 1] == sub_id);
            }
            if names.contains(sub_id) && last != sub_id {
                let i = choose|i: int| 0 <= i < names.len() && names[i] == sub_id;
                assert(less[i] == sub_id);
            }
        }
    }
}

/// A connection leaves nothing behind: once it is wound up, every subscription
/// that was opened on it has been cancelled, as often as it was opened.
pub proof fn law_every_subscription_is_cancelled(
    frames: Seq<InboundView>,
    names: Seq<Seq<char>>,
    sub_id: Seq<char>,
)
    requires
        names.no_duplicates(),
        names.to_set() == run_live(Set::empty(), frames),
    ensures
        ({
            let asked = run_requests(Set::empty(), frames) + finish_requests(names);
            opened(asked, sub_id) == cancelled(asked, sub_id)
        }),
{
    law_live_are_opened_and_not_cancelled(frames, sub_id);
    lemma_finish_counts(names, sub_id);
    lemma_counts_add(run_requests(Set::empty(), frames), finish_requests(names), sub_id);
    assert(names.contains(sub_id) == names.to_set().contains(sub_id));
}

/// A subscription under a name in use replaces it: the old call is cancelled
/// before the new one is made.
pub proof fn law_req_replaces(
    live: Set<Seq<char>>,
    sub_id: Seq<char>,
    filters: Seq<JsonView>,
)
    requires
        live.contains(sub_id),
    ensures
        ({
            let asked = requests_of(live, Some(ClientMsgView::Req { sub_id, filters }));
            asked.len() == 2 && asked[0] == Request::Cancel(sub_id) && asked[1] is Subscribe
        }),
        live_after(live, Some(ClientMsgView::Req { sub_id, filters })) == live,
{
    assert(live.insert(sub_id) =~= live);
}

/// How many calls a list of requests makes.
pub open spec fn calls(requests: Seq<Request>) -> nat
    decreases requests.len(),
{
    if requests.len() == 0 {
        0
    } else {
        calls(requests.drop_last()) + if requests.last() is Subscribe || requests.last() is Publish {
            1nat
        } else {
            0
        }
    }
}

/// One message, one call: a subscription or an event makes one call to the
/// server, with what the client sent; nothing else makes any.
pub proof fn law_one_message_one_call(live: Set<Seq<char>>, msg: Option<ClientMsgView>)
    ensures
        calls(requests_of(live, msg)) == match msg {
            Some(ClientMsgView::Req { .. }) => 1nat,
            Some(ClientMsgView::Publish(_)) => 1nat,
            _ => 0nat,
        },
        msg matches Some(ClientMsgView::Req { sub_id, filters }) ==> requests_of(live, msg).last()
            == (Request::Subscribe { sub_id, arguments: subscribe_arguments(sub_id, filters) }),
        msg matches Some(ClientMsgView::Publish(event)) ==> requests_of(live, msg).last() == (
        Request::Publish { event, arguments: publish_arguments(event) }),
{
    reveal_with_fuel(calls, 3);
    let asked = requests_of(live, msg);
    if asked.len() == 2 {
        assert(asked.drop_last() =~= seq![asked[0]]);
    }
}

/// What a client hears of a connection that cannot be made.
pub fn refusal_frame(message: &str) -> (r: String)
    ensures
        r@ == json_text(notice_message("error: "@ + message@)),
        reads_back(r@, notice_message("error: "@ + message@)),
{
    notice_frame("error: ".to_owned().concat(message).as_str())
}

/// Starts a connection for the path that the client asked for: the server it
/// names, or the frame to refuse it with.
pub fn open_connection(path: &str) -> (r: Result<ParsedPath, String>)
    ensures
        match r {
            Ok(p) => path_of(path@) == Ok::<
                ParsedPathView,
                crate::shim::path::PathErrorView,
            >(p@),
            Err(frame) => path_of(path@) matches Err(e) && frame@ == json_text(
                notice_message("error: "@ + PathError::message_of(e)),
            ) && reads_back(frame@, notice_message("error: "@ + PathError::message_of(e))),
        },
{
    match parse_path(path) {
        Ok(p) => Ok(p),
        Err(e) => Err(refusal_frame(e.message().as_str())),
    }
}

/// What came of a call of `publish_event`: its result, if it has one, or why it
/// failed.
#[derive(Debug, PartialEq)]
pub enum PublishReply {
    Result(Option<Json>),
    Failed(String),
}

/// The text of a field that is a string, or a default.
pub open spec fn str_field_or(v: JsonView, key: Seq<char>, default: Seq<char>) -> Seq<char> {
    match str_field(v, key) {
        Some(s) => s,
        None => default,
    }
}

/// The `OK` message that answers a published event.
pub open spec fn publish_answer(event: JsonView, reply: PublishReply) -> JsonView {
    let id = str_field_or(event, "id"@, ""@);
    match reply {
        PublishReply::Result(result) => {
            let out = match result {
                Some(v) => v@,
                None => JsonView::Null,
            };
            ok_message(
                str_field_or(out, "event_id"@, id),
                bool_field(out, "ok"@) == Some(true),
                str_field_or(out, "message"@, ""@),
            )
        },
        PublishReply::Failed(e) => ok_message(id, false, e@),
    }
}

/// The `OK` frame that answers a published event.
pub fn publish_answer_frame(event: &Json, reply: PublishReply) -> (r: String)
    ensures
        r@ == json_text(publish_answer(event@, reply)),
        reads_back(r@, publish_answer(event@, reply)),
{
    let id: &str = match event.get_str("id") {
        Some(id) => id,
        None => "",
    };
    match reply {
        PublishReply::Result(result) => {
            let out: Json = match result {
                Some(v) => v,
                None => Json::Null,
            };
            let ok: bool = match out.get_bool("ok") {
                Some(ok) => ok,
                None => false,
            };
            let message: &str = match out.get_str("message") {
                Some(m) => m,
                None => "",
            };
            let ok_id: &str = match out.get_str("event_id") {
                Some(id) => id,
                None => id,
            };
            ok_frame(ok_id, ok, message)
        },
        PublishReply::Failed(e) => ok_frame(id, false, e.as_str()),
    }
}

/// A published event is answered as the server answered: its id, whether it was
/// taken, and the server's message.
pub proof fn law_server_outcome_reaches_the_client(
    event: JsonView,
    out: crate::server::proxy::PublishOutcomeView,
    result: Json,
)
    requires
        result@ == JsonView::Object(crate::server::proxy::PublishOutcome::fields(out)),
    ensures
        publish_answer(event, PublishReply::Result(Some(result))) == ok_message(
            out.event_id,
            out.ok,
            out.message,
        ),
{
    reveal_strlit("ok");
    reveal_strlit("event_id");
    reveal_strlit("message");
    assert("ok"@.len() == 2 && "event_id"@.len() == 8 && "message"@.len() == 7);
}

/// Whether `actions` are what a frame of these items asks for, `live` being the
/// names in use. A subscription is one call of `subscribe`, with the client's name
/// and all of its filters, after the call under the same name is cancelled; taking
/// one back cancels it; an event is one call of `publish_event` with the event as it
/// is; and anything else is answered with a notice.
pub open spec fn answers_items(
    actions: Seq<Action>,
    live: Set<Seq<char>>,
    items: Seq<JsonView>,
) -> bool {
    let named = items.len() >= 2 && items[1] is Str;
    if named && items[0] == JsonView::Str("REQ"@) {
        let name = items[1]->Str_0;
        &&& actions.len() == if live.contains(name) {
            2int
        } else {
            1
        }
        &&& live.contains(name) ==> (actions[0] matches Action::Cancel(s) && s@ == name)
        &&& actions.last() matches Action::Subscribe { sub_id, arguments } && sub_id@ == name
            && arguments@ is Object && arguments@->Object_0.dom() == set![
            "subscription_id"@,
            "filters"@,
        ] && arguments@->Object_0["subscription_id"@] == JsonView::Str(name)
            && arguments@->Object_0["filters"@] is Array
            && arguments@->Object_0["filters"@]->Array_0.len() == items.len() - 2 && forall|i: int|
            #![trigger items[i]]
            2 <= i < items.len() ==> arguments@->Object_0["filters"@]->Array_0[i - 2] == items[i]
    } else if named && items[0] == JsonView::Str("CLOSE"@) {
        if live.contains(items[1]->Str_0) {
            actions.len() == 1 && (actions[0] matches Action::Cancel(s) && s@ == items[1]->Str_0)
        } else {
            actions.len() == 0
        }
    } else if items.len() >= 2 && items[0] == JsonView::Str("EVENT"@) {
        actions.len() == 1 && (actions[0] matches Action::Publish { event, arguments } && event@
            == items[1] && arguments@ is Object && arguments@->Object_0.dom() == set!["event"@]
            && arguments@->Object_0["event"@] == items[1])
    } else {
        is_notice(actions)
    }
}

/// Whether the client is told that its frame is none.
pub open spec fn is_notice(actions: Seq<Action>) -> bool {
    actions.len() == 1 && (actions[0] matches Action::Send(text) && text@ == json_text(
        JsonView::Array(seq![JsonView::Str("NOTICE"@), JsonView::Str("unrecognized frame"@)]),
    ))
}

/// Whether `after` are the names in use after a frame of these items.
pub open spec fn uses_after(
    live: Set<Seq<char>>,
    items: Seq<JsonView>,
    after: Set<Seq<char>>,
) -> bool {
    let named = items.len() >= 2 && items[1] is Str;
    forall|name: Seq<char>| #[trigger]
        after.contains(name) <==> if named && items[1]->Str_0 == name && items[0] == JsonView::Str(
            "REQ"@,
        ) {
            true
        } else if named && items[1]->Str_0 == name && items[0] == JsonView::Str("CLOSE"@) {
            false
        } else {
            live.contains(name)
        }
}

/// A frame is answered by what its JSON array asks for, with what the client sent
/// and all of it; a text that is none by a notice. Frames that are no text ask for
/// nothing, and a client that is gone ends the connection.
pub proof fn law_frames_are_answered(c: &mut Connection, frame: Inbound, r: Vec<Action>)
    requires
        old(c).wf(),
        call_ensures(Connection::on_frame, (c, frame), r),
    ensures
        final(c).wf(),
        frame matches Inbound::Text(text) ==> match json_array(text@) {
            Some(items) => answers_items(r@, old(c).live(), items) && uses_after(
                old(c).live(),
                items,
                final(c).live(),
            ),
            None => is_notice(r@) && final(c).live() == old(c).live(),
        },
        frame is Other ==> r@.len() == 0 && final(c).live() == old(c).live(),
        frame is Gone ==> r@.len() == 1 && r@[0] is End && final(c).live() == old(c).live(),
{
    if let Inbound::Text(text) = frame {
        if let Some(items) = json_array(text@) {
            lemma_answers_items(r@, old(c).live(), items);
        }
    }
}

proof fn lemma_answers_items(actions: Seq<Action>, live: Set<Seq<char>>, items: Seq<JsonView>)
    requires
        all_meet(actions, requests_of(live, crate::shim::translate::client_msg_of(items))),
    ensures
        answers_items(actions, live, items),
        uses_after(
            live,
            items,
            live_after(live, crate::shim::translate::client_msg_of(items)),
        ),
{
    reveal_strlit("REQ");
    reveal_strlit("CLOSE");
    reveal_strlit("EVENT");
    reveal_strlit("subscription_id");
    reveal_strlit("filters");
    assert("REQ"@.len() == 3 && "CLOSE"@.len() == 5 && "CLOSE"@[0] == 'C' && "EVENT"@[0] == 'E');
    assert("subscription_id"@.len() == 15 && "filters"@.len() == 7);
    let asked = requests_of(live, crate::shim::translate::client_msg_of(items));
    if asked.len() > 0 {
        assert(meets(actions[0], asked[0]));
        assert(meets(actions.last(), asked.last()));
    }
    match crate::shim::translate::client_msg_of(items) {
        Some(ClientMsgView::Req { sub_id, filters }) => {
            assert(subscribe_arguments(sub_id, filters).dom() =~= set![
                "subscription_id"@,
                "filters"@,
            ]);
        },
        Some(ClientMsgView::Publish(event)) => {
            assert(publish_arguments(event).dom() =~= set!["event"@]);
        },
        _ => {},
    }
}

/// A message is answered as a frame that says it is.
pub proof fn law_messages_are_answered_as_frames(
    c: &mut Connection,
    msg: Option<ClientMsg>,
    items: Seq<JsonView>,
    r: Vec<Action>,
)
    requires
        old(c).wf(),
        call_ensures(Connection::on_message, (c, msg), r),
        crate::shim::translate::says(items, msg),
    ensures
        final(c).wf(),
        answers_items(r@, old(c).live(), items),
        uses_after(old(c).live(), items, final(c).live()),
{
    if let Some(ClientMsg::Req { sub_id, filters }) = msg {
        assert(values(filters@) =~= items.skip(2)) by {
            assert forall|i: int| 0 <= i < filters@.len() implies values(filters@)[i]
                == items.skip(2)[i] by {
                assert(values(filters@)[i] == filters@[i]@);
            }
        }
    }
    lemma_said(items, msg);
    lemma_answers_items(r@, old(c).live(), items);
}

proof fn lemma_said(items: Seq<JsonView>, msg: Option<ClientMsg>)
    requires
        crate::shim::translate::says(items, msg),
        msg matches Some(ClientMsg::Req { sub_id, filters }) ==> values(filters@) == items.skip(2),
    ensures
        msg_view(msg) == crate::shim::translate::client_msg_of(items),
{
    reveal_strlit("REQ");
    reveal_strlit("CLOSE");
    reveal_strlit("EVENT");
    assert("REQ"@.len() == 3 && "CLOSE"@.len() == 5 && "CLOSE"@[0] == 'C' && "EVENT"@[0] == 'E');
}

/// A connection starts without subscriptions, and when it is wound up every one
/// that is in use is cancelled, each once.
pub proof fn law_connection_is_wound_up(started: Connection, c: Connection, r: Vec<String>)
    requires
        call_ensures(Connection::new, (), started),
        c.wf(),
        call_ensures(Connection::finish, (c,), r),
    ensures
        started.wf(),
        forall|name: Seq<char>| !#[trigger] started.live().contains(name),
        forall|name: Seq<char>| #[trigger]
            c.live().contains(name) <==> exists|i: int| 0 <= i < r@.len() && (#[trigger] r@[i])@
                == name,
        forall|i: int, j: int| 0 <= i < j < r@.len() ==> (#[trigger] r@[i])@ != (#[trigger] r@[j])@,
{
    assert forall|name: Seq<char>| #[trigger] c.live().contains(name) <==> exists|i: int|
        0 <= i < r@.len() && (#[trigger] r@[i])@ == name by {
        if c.live().contains(name) {
            let i = choose|i: int| 0 <= i < texts(r@).len() && texts(r@)[i] == name;
            assert(r@[i]@ == name);
        }
        if exists|i: int| 0 <= i < r@.len() && (#[trigger] r@[i])@ == name {
            let i = choose|i: int| 0 <= i < r@.len() && (#[trigger] r@[i])@ == name;
            assert(texts(r@)[i] == name);
        }
    }
    assert forall|i: int, j: int| 0 <= i < j < r@.len() implies (#[trigger] r@[i])@ != (
    #[trigger] r@[j])@ by {
        assert(texts(r@)[i] == r@[i]@ && texts(r@)[j] == r@[j]@);
    }
}

/// A field of an object where it is a string, else a default.
pub open spec fn named_text(v: JsonView, key: Seq<char>, default: Seq<char>) -> Seq<char> {
    if v is Object && v->Object_0.contains_key(key) && v->Object_0[key] is Str {
        v->Object_0[key]->Str_0
    } else {
        default
    }
}

/// A published event is answered by an `OK` with what the call gave: the id that
/// the server states or else the event's own, whether the server states `true`, and
/// the server's message. A call that failed is a refusal of the event for that reason.
pub proof fn law_published_events_are_answered(event: Json, reply: PublishReply, r: String)
    requires
        call_ensures(publish_answer_frame, (&event, reply), r),
    ensures
        reply matches PublishReply::Failed(cause) ==> json_array(r@) == Some(
            seq![
                JsonView::Str("OK"@),
                JsonView::Str(named_text(event@, "id"@, ""@)),
                JsonView::Bool(false),
                JsonView::Str(cause@),
            ],
        ),
        reply matches PublishReply::Result(Some(out)) ==> json_array(r@) == Some(
            seq![
                JsonView::Str("OK"@),
                JsonView::Str(named_text(out@, "event_id"@, named_text(event@, "id"@, ""@))),
                JsonView::Bool(
                    out@ is Object && out@->Object_0.contains_pair("ok"@, JsonView::Bool(true)),
                ),
                JsonView::Str(named_text(out@, "message"@, ""@)),
            ],
        ),
        reply matches PublishReply::Result(None) ==> json_array(r@) == Some(
            seq![
                JsonView::Str("OK"@),
                JsonView::Str(named_text(event@, "id"@, ""@)),
                JsonView::Bool(false),
                JsonView::Str(""@),
            ],
        ),
{
    let id = named_text(event@, "id"@, ""@);
    match reply {
        PublishReply::Failed(cause) => crate::shim::translate::law_ok_frame_is_read_back(
            r@,
            id,
            false,
            cause@,
        ),
        PublishReply::Result(Some(out)) => crate::shim::translate::law_ok_frame_is_read_back(
            r@,
            named_text(out@, "event_id"@, id),
            bool_field(out@, "ok"@) == Some(true),
            named_text(out@, "message"@, ""@),
        ),
        PublishReply::Result(None) => crate::shim::translate::law_ok_frame_is_read_back(
            r@,
            id,
            false,
            ""@,
        ),
    }
}

/// A connection is opened to the server that its path names, as any reading of the
/// path gives it; one that names none is refused with a notice that says why.
pub proof fn law_connections_follow_the_path(
    path: &str,
    parsed: Result<ParsedPath, PathError>,
    r: Result<ParsedPath, String>,
    told: String,
)
    requires
        call_ensures(parse_path, (path,), parsed),
        call_ensures(open_connection, (path,), r),
        parsed matches Err(e) ==> call_ensures(PathError::message, (&e,), told),
    ensures
        parsed matches Ok(p) ==> (r matches Ok(q) && q.hex@ == p.hex@ && texts(q.relay_hints@)
            == texts(p.relay_hints@)),
        parsed is Err ==> (r matches Err(frame) && json_array(frame@) == Some(
            seq![JsonView::Str("NOTICE"@), JsonView::Str("error: "@ + told@)],
        )),
{
    if let (Err(e), Err(frame)) = (parsed, r) {
        crate::shim::translate::lemma_notice_is_read_back(frame@, "error: "@ + told@);
    }
}

/// A refusal is a notice of the error.
pub proof fn law_refusal_is_a_notice(message: &str, r: String)
    requires
        call_ensures(refusal_frame, (message,), r),
    ensures
        json_array(r@) == Some(
            seq![JsonView::Str("NOTICE"@), JsonView::Str("error: "@ + message@)],
        ),
{
    crate::shim::translate::lemma_notice_is_read_back(r@, "error: "@ + message@);
}

} // verus!
