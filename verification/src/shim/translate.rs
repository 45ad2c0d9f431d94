//! NIP-01 frames: those that clients send, read, and those that the bridge makes,
//! written.

use vstd::prelude::*;

use crate::json::{json_array, json_text, reads_back, str_of, values, Json, JsonView};
use crate::server::proxy::{chunk, closed_chunk, closed_message, str_json};
use crate::text::same;

verus! {

/// A frame that a client sent.
#[derive(Debug, Clone, PartialEq)]
pub enum ClientMsg {
    /// `["REQ", sub, filter, …]`
    Req { sub_id: String, filters: Vec<Json> },
    /// `["CLOSE", sub]`
    Close { sub_id: String },
    /// `["EVENT", event]`
    Publish(Json),
}

pub enum ClientMsgView {
    Req { sub_id: Seq<char>, filters: Seq<JsonView> },
    Close { sub_id: Seq<char> },
    Publish(JsonView),
}

impl View for ClientMsg {
    type V = ClientMsgView;

    open spec fn view(&self) -> ClientMsgView {
        match self {
            ClientMsg::Req { sub_id, filters } => ClientMsgView::Req {
                sub_id: sub_id@,
                filters: values(filters@),
            },
            ClientMsg::Close { sub_id } => ClientMsgView::Close { sub_id: sub_id@ },
            ClientMsg::Publish(event) => ClientMsgView::Publish(event@),
        }
    }
}

pub open spec fn msg_view(m: Option<ClientMsg>) -> Option<ClientMsgView> {
    match m {
        Some(m) => Some(m@),
        None => None,
    }
}

/// The text of the item at `i`, if there is one and it is a string.
pub open spec fn text_at(items: Seq<JsonView>, i: int) -> Option<Seq<char>> {
    if 0 <= i < items.len() {
        str_of(items[i])
    } else {
        None
    }
}

/// The message that the items of a frame make.
pub open spec fn client_msg_of(items: Seq<JsonView>) -> Option<ClientMsgView> {
    match text_at(items, 0) {
        Some(kind) => if kind == "REQ"@ {
            match text_at(items, 1) {
                Some(sub_id) => Some(ClientMsgView::Req { sub_id, filters: items.skip(2) }),
                None => None,
            }
        } else if kind == "CLOSE"@ {
            match text_at(items, 1) {
                Some(sub_id) => Some(ClientMsgView::Close { sub_id }),
                None => None,
            }
        } else if kind == "EVENT"@ && items.len() > 1 {
            Some(ClientMsgView::Publish(items[1]))
        } else {
            None
        },
        None => None,
    }
}

/// The message that a frame's text makes.
pub open spec fn frame_msg_of(text: Seq<char>) -> Option<ClientMsgView> {
    match json_array(text) {
        Some(items) => client_msg_of(items),
        None => None,
    }
}

fn item_text<'a>(items: &'a Vec<Json>, i: usize) -> (r: Option<&'a str>)
    ensures
        crate::text::opt_str(r) == text_at(values(items@), i as int),
{
    if i < items.len() {
        assert(values(items@)[i as int] == items@[i as int]@);
        items[i].as_str()
    } else {
        None
    }
}

/// The message that the items of a frame make.
pub fn client_msg(items: &Vec<Json>) -> (r: Option<ClientMsg>)
    ensures
        msg_view(r) == client_msg_of(values(items@)),
{
    let ghost all = values(items@);
    proof {
        reveal_strlit("REQ");
        reveal_strlit("CLOSE");
        reveal_strlit("EVENT");
        assert("REQ"@.len() == 3 && "CLOSE"@.len() == 5 && "CLOSE"@[0] == 'C' && "EVENT"@[0] == 'E');
    }
    let kind: &str = match item_text(items, 0) {
        Some(kind) => kind,
        None => {
            return None;
        },
    };
    if same(kind, "REQ") {
        let sub_id: String = match item_text(items, 1) {
            Some(sub_id) => sub_id.to_owned(),
            None => {
                return None;
            },
        };
        let size: usize = items.len();
        let mut filters: Vec<Json> = Vec::new();
        for i in 2..size
            invariant
                size == items@.len(),
                size >= 2,
                all == values(items@),
                filters@.len() == i - 2,
                forall|j: int| 0 <= j < i - 2 ==> (#[trigger] filters@[j])@ == all[j + 2],
        {
            filters.push(items[i].clone());
        }
        assert(values(filters@) =~= all.skip(2));
        Some(ClientMsg::Req { sub_id, filters })
    } else if same(kind, "CLOSE") {
        match item_text(items, 1) {
            Some(sub_id) => Some(ClientMsg::Close { sub_id: sub_id.to_owned() }),
            None => None,
        }
    } else if same(kind, "EVENT") && items.len() > 1 {
        Some(ClientMsg::Publish(items[1].clone()))
    } else {
        None
    }
}

/// Reads a client's frame. A text that is no message of a client gives none.
pub fn parse_client_frame(text: &str) -> (r: Option<ClientMsg>)
    ensures
        msg_view(r) == frame_msg_of(text@),
{
    match Json::parse_array(text) {
        Some(items) => client_msg(&items),
        None => None,
    }
}

pub open spec fn ok_message(event_id: Seq<char>, accepted: bool, message: Seq<char>) -> JsonView {
    JsonView::Array(
        seq![
            JsonView::Str("OK"@),
            JsonView::Str(event_id),
            JsonView::Bool(accepted),
            JsonView::Str(message),
        ],
    )
}

pub open spec fn notice_message(message: Seq<char>) -> JsonView {
    JsonView::Array(seq![JsonView::Str("NOTICE"@), JsonView::Str(message)])
}

/// `["OK", event_id, accepted, message]`
pub fn ok_frame(event_id: &str, accepted: bool, message: &str) -> (r: String)
    ensures
        r@ == json_text(ok_message(event_id@, accepted, message@)),
        reads_back(r@, ok_message(event_id@, accepted, message@)),
{
    let parts: Vec<Json> = vec![
        str_json("OK"),
        str_json(event_id),
        Json::Bool(accepted),
        str_json(message),
    ];
    assert(values(parts@) =~= ok_message(event_id@, accepted, message@)->Array_0);
    chunk(parts)
}

/// `["NOTICE", message]`
pub fn notice_frame(message: &str) -> (r: String)
    ensures
        r@ == json_text(notice_message(message@)),
        reads_back(r@, notice_message(message@)),
{
    let parts: Vec<Json> = vec![str_json("NOTICE"), str_json(message)];
    assert(values(parts@) =~= notice_message(message@)->Array_0);
    chunk(parts)
}

/// `["CLOSED", sub_id, message]`
pub fn closed_frame(sub_id: &str, message: &str) -> (r: String)
    ensures
        r@ == json_text(closed_message(sub_id@, message@)),
        reads_back(r@, closed_message(sub_id@, message@)),
{
    closed_chunk(sub_id, message)
}

/// The items of a frame that a client sends.
pub open spec fn client_items(m: ClientMsgView) -> Seq<JsonView> {
    match m {
        ClientMsgView::Req { sub_id, filters } => seq![JsonView::Str("REQ"@), JsonView::Str(sub_id)]
            + filters,
        ClientMsgView::Close { sub_id } => seq![JsonView::Str("CLOSE"@), JsonView::Str(sub_id)],
        ClientMsgView::Publish(event) => seq![JsonView::Str("EVENT"@), event],
    }
}

/// Every message that a client writes is read as it was meant.
pub proof fn law_client_messages_are_read(m: ClientMsgView)
    ensures
        client_msg_of(client_items(m)) == Some(m),
{
    reveal_strlit("REQ");
    reveal_strlit("CLOSE");
    reveal_strlit("EVENT");
    assert("REQ"@.len() == 3 && "CLOSE"@.len() == 5 && "CLOSE"@[0] == 'C' && "EVENT"@[0] == 'E');
    let items = client_items(m);
    if let ClientMsgView::Req { sub_id, filters } = m {
        assert(items[0] == JsonView::Str("REQ"@));
        assert(items[1] == JsonView::Str(sub_id));
        assert(items.skip(2) =~= filters);
    }
}

/// What the bridge writes is no message of a client: none of its frames would be
/// taken for one.
pub proof fn law_written_frames_are_no_client_messages(
    id: Seq<char>,
    accepted: bool,
    message: Seq<char>,
)
    ensures
        client_msg_of(ok_message(id, accepted, message)->Array_0) is None,
        client_msg_of(notice_message(message)->Array_0) is None,
        client_msg_of(closed_message(id, message)->Array_0) is None,
{
    reveal_strlit("REQ");
    reveal_strlit("CLOSE");
    reveal_strlit("EVENT");
    reveal_strlit("OK");
    reveal_strlit("NOTICE");
    reveal_strlit("CLOSED");
    assert("REQ"@.len() == 3 && "CLOSE"@.len() == 5 && "EVENT"@.len() == 5 && "OK"@.len() == 2
        && "NOTICE"@.len() == 6 && "CLOSED"@.len() == 6);
}

/// A frame that the bridge wrote says, when read, what it was made of.
pub proof fn law_ok_frame_is_read_back(
    written: Seq<char>,
    event_id: Seq<char>,
    accepted: bool,
    message: Seq<char>,
)
    requires
        reads_back(written, ok_message(event_id, accepted, message)),
    ensures
        json_array(written) == Some(ok_message(event_id, accepted, message)->Array_0),
{
    lemma_flat_array_is_read_back(written, ok_message(event_id, accepted, message));
}

/// Whether a frame of these items says `m`: `["REQ", name, filter, …]` asks for a
/// subscription with all the filters, in order, `["CLOSE", name, …]` takes one back
/// and `["EVENT", event, …]` publishes an event; no other frame says anything.
pub open spec fn says(items: Seq<JsonView>, m: Option<ClientMsg>) -> bool {
    let named = items.len() >= 2 && items[1] is Str;
    if named && items[0] == JsonView::Str("REQ"@) {
        m matches Some(ClientMsg::Req { sub_id, filters }) && sub_id@ == items[1]->Str_0
            && filters@.len() == items.len() - 2 && forall|i: int|
            0 <= i < filters@.len() ==> (#[trigger] filters@[i])@ == items[i + 2]
    } else if named && items[0] == JsonView::Str("CLOSE"@) {
        m matches Some(ClientMsg::Close { sub_id }) && sub_id@ == items[1]->Str_0
    } else if items.len() >= 2 && items[0] == JsonView::Str("EVENT"@) {
        m matches Some(ClientMsg::Publish(event)) && event@ == items[1]
    } else {
        m is None
    }
}

/// A frame is read as what its items say, each of them taken over as it is.
pub proof fn law_frames_say_what_their_items_say(items: Vec<Json>, r: Option<ClientMsg>)
    requires
        call_ensures(client_msg, (&items,), r),
    ensures
        says(values(items@), r),
        values(items@).len() == items@.len(),
        forall|i: int| 0 <= i < items@.len() ==> #[trigger] values(items@)[i] == items@[i]@,
{
    lemma_says(values(items@), r);
}

/// A frame's text says what the JSON array that it writes says; a text that writes
/// none says nothing.
pub proof fn law_texts_say_what_they_write(text: &str, r: Option<ClientMsg>)
    requires
        call_ensures(parse_client_frame, (text,), r),
    ensures
        json_array(text@) matches Some(items) ==> says(items, r),
        json_array(text@) is None ==> r is None,
{
    if let Some(items) = json_array(text@) {
        lemma_says(items, r);
    }
}

proof fn lemma_says(items: Seq<JsonView>, r: Option<ClientMsg>)
    requires
        msg_view(r) == client_msg_of(items),
    ensures
        says(items, r),
{
    reveal_strlit("REQ");
    reveal_strlit("CLOSE");
    reveal_strlit("EVENT");
    assert("REQ"@.len() == 3 && "CLOSE"@.len() == 5 && "CLOSE"@[0] == 'C' && "EVENT"@[0] == 'E');
    if let Some(ClientMsg::Req { sub_id, filters }) = r {
        assert(values(filters@) == items.skip(2));
        assert forall|i: int| 0 <= i < filters@.len() implies (#[trigger] filters@[i])@ == items[i
            + 2] by {
            assert(values(filters@)[i] == filters@[i]@);
        }
    }
}

/// The frames that the bridge makes are read as what they were made of.
pub proof fn law_frames_are_read_as_made(
    id: &str,
    accepted: bool,
    message: &str,
    ok: String,
    notice: String,
    closed: String,
)
    requires
        call_ensures(ok_frame, (id, accepted, message), ok),
        call_ensures(notice_frame, (message,), notice),
        call_ensures(closed_frame, (id, message), closed),
    ensures
        json_array(ok@) == Some(
            seq![
                JsonView::Str("OK"@),
                JsonView::Str(id@),
                JsonView::Bool(accepted),
                JsonView::Str(message@),
            ],
        ),
        json_array(notice@) == Some(seq![JsonView::Str("NOTICE"@), JsonView::Str(message@)]),
        json_array(closed@) == Some(
            seq![JsonView::Str("CLOSED"@), JsonView::Str(id@), JsonView::Str(message@)],
        ),
{
    lemma_flat_array_is_read_back(ok@, ok_message(id@, accepted, message@));
    lemma_flat_array_is_read_back(notice@, notice_message(message@));
    lemma_flat_array_is_read_back(closed@, closed_message(id@, message@));
}

pub(crate) proof fn lemma_notice_is_read_back(written: Seq<char>, message: Seq<char>)
    requires
        reads_back(written, notice_message(message)),
    ensures
        json_array(written) == Some(notice_message(message)->Array_0),
{
    lemma_flat_array_is_read_back(written, notice_message(message));
}

proof fn lemma_flat_array_is_read_back(written: Seq<char>, v: JsonView)
    requires
        v is Array,
        reads_back(written, v),
        forall|i: int|
            0 <= i < v->Array_0.len() ==> (#[trigger] v->Array_0[i]) is Str || v->Array_0[i] is Bool,
    ensures
        json_array(written) == Some(v->Array_0),
{
    let items = v->Array_0;
    assert forall|i: int| 0 <= i < items.len() implies crate::json::readable_within(
        #[trigger] items[i],
        126,
    ) by {
        assert(items[i] is Str || items[i] is Bool);
    }
    assert(crate::json::readable_within(v, 127));
    let read = json_array(written).unwrap();
    assert forall|i: int| 0 <= i < items.len() implies read[i] == items[i] by {
        assert(items[i] is Str || items[i] is Bool);
    }
    assert(read =~= items);
}

} // verus!
