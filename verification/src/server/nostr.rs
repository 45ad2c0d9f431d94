//! Filters and events, as `nostr_sdk` reads them.

use vstd::prelude::*;

use crate::json::{json_content, values, Json, JsonView};
use crate::text::is_hex;

verus! {

/// `nostr_sdk::Filter`, carried whole.
#[verifier::external_type_specification]
#[verifier::external_body]
pub struct ExFilter(nostr_sdk::Filter);

/// `nostr_sdk::Event`, carried whole.
#[verifier::external_type_specification]
#[verifier::external_body]
pub struct ExEvent(nostr_sdk::Event);

/// The filter that a JSON value writes, or why it writes none.
pub uninterp spec fn filter_of(v: JsonView) -> Result<nostr_sdk::Filter, Seq<char>>;

/// The event that a JSON value writes, or why it writes none.
pub uninterp spec fn event_of(v: JsonView) -> Result<nostr_sdk::Event, Seq<char>>;

/// The id of an event, in hexadecimal.
pub uninterp spec fn event_id_of(event: nostr_sdk::Event) -> Seq<char>;

/// `serde_json::from_value` into a `nostr_sdk::Filter`: the filter, or the text of
/// the error, is a function of the value.
#[verifier::external_body]
fn filter_from(value: serde_json::Value) -> (r: Result<nostr_sdk::Filter, String>)
    ensures
        match r {
            Ok(f) => filter_of(json_content(value)) == Ok::<nostr_sdk::Filter, Seq<char>>(f),
            Err(e) => filter_of(json_content(value)) == Err::<nostr_sdk::Filter, Seq<char>>(e@),
        },
{
    serde_json::from_value::<nostr_sdk::Filter>(value).map_err(|e| e.to_string())
}

/// `serde_json::from_value` into a `nostr_sdk::Event`: the event, or the text of
/// the error, is a function of the value.
#[verifier::external_body]
fn event_from(value: serde_json::Value) -> (r: Result<nostr_sdk::Event, String>)
    ensures
        match r {
            Ok(event) => event_of(json_content(value)) == Ok::<nostr_sdk::Event, Seq<char>>(event),
            Err(e) => event_of(json_content(value)) == Err::<nostr_sdk::Event, Seq<char>>(e@),
        },
{
    serde_json::from_value::<nostr_sdk::Event>(value).map_err(|e| e.to_string())
}

/// `nostr_sdk::EventId::to_hex` of the event's id: a function of the event, 64
/// lower-case hexadecimal digits.
#[verifier::external_body]
pub(crate) fn event_id(event: &nostr_sdk::Event) -> (r: String)
    ensures
        r@ == event_id_of(*event),
        is_hex(r@, 64),
{
    event.id.to_hex()
}

/// The filters that a list of JSON values writes, or why the first that writes
/// none does not.
pub open spec fn filters_of(vs: Seq<JsonView>) -> Result<Seq<nostr_sdk::Filter>, Seq<char>>
    decreases vs.len(),
{
    if vs.len() == 0 {
        Ok(Seq::empty())
    } else {
        match filters_of(vs.drop_last()) {
            Ok(fs) => match filter_of(vs.last()) {
                Ok(f) => Ok(fs.push(f)),
                Err(e) => Err(e),
            },
            Err(e) => Err(e),
        }
    }
}

proof fn lemma_error_stays(vs: Seq<JsonView>, n: int)
    requires
        0 <= n <= vs.len(),
        filters_of(vs.take(n)) is Err,
    ensures
        filters_of(vs) == filters_of(vs.take(n)),
    decreases vs.len() - n,
{
    if n < vs.len() {
        assert(vs.take(n + 1).drop_last() =~= vs.take(n));
        lemma_error_stays(vs, n + 1);
    } else {
        assert(vs.take(n) =~= vs);
    }
}

/// Reads a list of filters.
pub fn read_filters(list: &Vec<Json>) -> (r: Result<Vec<nostr_sdk::Filter>, String>)
    ensures
        match r {
            Ok(fs) => filters_of(values(list@)) == Ok::<Seq<nostr_sdk::Filter>, Seq<char>>(fs@),
            Err(e) => filters_of(values(list@)) == Err::<Seq<nostr_sdk::Filter>, Seq<char>>(e@),
        },
{
    let ghost vs = values(list@);
    let size: usize = list.len();
    let mut filters: Vec<nostr_sdk::Filter> = Vec::new();
    assert(vs.take(0) =~= Seq::empty());
    for i in 0..size
        invariant
            size == list@.len(),
            vs == values(list@),
            filters_of(vs.take(i as int)) == Ok::<Seq<nostr_sdk::Filter>, Seq<char>>(filters@),
    {
        assert(vs.take(i + 1).drop_last() =~= vs.take(i as int));
        assert(vs.take(i + 1).last() == list@[i as int]@);
        match filter_from(list[i].to_value()) {
            Ok(f) => filters.push(f),
            Err(e) => {
                proof {
                    lemma_error_stays(vs, i + 1);
                }
                return Err(e);
            },
        }
    }
    assert(vs.take(size as int) =~= vs);
    Ok(filters)
}

/// Reads an event.
pub fn read_event(value: &Json) -> (r: Result<nostr_sdk::Event, String>)
    ensures
        match r {
            Ok(event) => event_of(value@) == Ok::<nostr_sdk::Event, Seq<char>>(event),
            Err(e) => event_of(value@) == Err::<nostr_sdk::Event, Seq<char>>(e@),
        },
{
    event_from(value.to_value())
}

/// Every filter is read, each as it is and in order; the first that cannot be read
/// says why none are.
pub proof fn law_all_filters_are_read(
    list: Vec<Json>,
    r: Result<Vec<nostr_sdk::Filter>, String>,
) -> (at: int)
    requires
        call_ensures(read_filters, (&list,), r),
    ensures
        r matches Ok(fs) ==> fs@.len() == list@.len() && forall|i: int|
            0 <= i < list@.len() ==> filter_of((#[trigger] list@[i])@) == Ok::<
                nostr_sdk::Filter,
                Seq<char>,
            >(fs@[i]),
        r matches Err(e) ==> 0 <= at < list@.len() && filter_of(list@[at]@) == Err::<
            nostr_sdk::Filter,
            Seq<char>,
        >(e@) && forall|i: int| 0 <= i < at ==> filter_of((#[trigger] list@[i])@) is Ok,
{
    let vs = values(list@);
    assert forall|i: int| 0 <= i < list@.len() implies vs[i] == (#[trigger] list@[i])@ by {}
    let at = lemma_filters(vs);
    if let Ok(fs) = r {
        assert forall|i: int| 0 <= i < list@.len() implies filter_of((#[trigger] list@[i])@)
            == Ok::<nostr_sdk::Filter, Seq<char>>(fs@[i]) by {
            assert(vs[i] == list@[i]@);
        }
    } else {
        assert forall|i: int| 0 <= i < at implies filter_of((#[trigger] list@[i])@) is Ok by {
            assert(vs[i] == list@[i]@);
        }
    }
    at
}

proof fn lemma_filters(vs: Seq<JsonView>) -> (at: int)
    ensures
        match filters_of(vs) {
            Ok(fs) => fs.len() == vs.len() && forall|i: int|
                0 <= i < vs.len() ==> filter_of(#[trigger] vs[i]) == Ok::<
                    nostr_sdk::Filter,
                    Seq<char>,
                >(fs[i]),
            Err(e) => 0 <= at < vs.len() && filter_of(vs[at]) == Err::<
                nostr_sdk::Filter,
                Seq<char>,
            >(e) && forall|i: int| 0 <= i < at ==> filter_of(#[trigger] vs[i]) is Ok,
        },
    decreases vs.len(),
{
    if vs.len() == 0 {
        0
    } else {
        let earlier = vs.drop_last();
        assert forall|i: int| 0 <= i < earlier.len() implies earlier[i] == #[trigger] vs[i] by {}
        let at = lemma_filters(earlier);
        assert(vs.last() == vs[vs.len() - 1]);
        match filters_of(earlier) {
            Ok(fs) => {
                assert forall|i: int| 0 <= i < earlier.len() implies filter_of(#[trigger] vs[i])
                    == Ok::<nostr_sdk::Filter, Seq<char>>(fs[i]) by {
                    assert(earlier[i] == vs[i]);
                }
                vs.len() - 1
            },
            Err(_) => {
                assert forall|i: int| 0 <= i < at implies filter_of(#[trigger] vs[i]) is Ok by {
                    assert(earlier[i] == vs[i]);
                }
                at
            },
        }
    }
}

/// An event is read as it is.
pub proof fn law_events_are_read(value: Json, r: Result<nostr_sdk::Event, String>)
    requires
        call_ensures(read_event, (&value,), r),
    ensures
        r matches Ok(event) ==> event_of(value@) == Ok::<nostr_sdk::Event, Seq<char>>(event),
        r matches Err(e) ==> event_of(value@) == Err::<nostr_sdk::Event, Seq<char>>(e@),
{
}

} // verus!
