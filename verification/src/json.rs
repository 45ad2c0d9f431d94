//! JSON values, and reading and writing them with `serde_json`.

use vstd::prelude::*;
use vstd::utf8::encode_utf8;

use crate::text;

verus! {

/// `serde_json::Value`, carried whole.
#[verifier::external_type_specification]
#[verifier::external_body]
pub struct ExValue(serde_json::Value);

/// `serde_json::Number`, carried whole.
#[verifier::external_type_specification]
#[verifier::external_body]
pub struct ExNumber(serde_json::Number);

/// `serde_json::Number::clone` gives an equal number.
pub assume_specification[ <serde_json::Number as Clone>::clone ](n: &serde_json::Number) -> (r:
    serde_json::Number)
    ensures
        r == *n,
;

/// A JSON value. Where an object names a field twice, the later one counts.
#[derive(Debug, PartialEq)]
pub enum Json {
    Null,
    Bool(bool),
    Number(serde_json::Number),
    Str(String),
    Array(Vec<Json>),
    Object(Vec<(String, Json)>),
}

/// What a JSON value stands for.
pub enum JsonView {
    Null,
    Bool(bool),
    Number(serde_json::Number),
    Str(Seq<char>),
    Array(Seq<JsonView>),
    Object(Map<Seq<char>, JsonView>),
}

/// The fields that a list of assignments leaves: a later one replaces an earlier.
pub open spec fn fields_of(entries: Seq<(Seq<char>, JsonView)>) -> Map<Seq<char>, JsonView>
    decreases entries.len(),
{
    if entries.len() == 0 {
        Map::empty()
    } else {
        fields_of(entries.drop_last()).insert(entries.last().0, entries.last().1)
    }
}

/// The value that `v` stands for.
pub open spec fn json_view(v: Json) -> JsonView
    decreases v,
{
    match v {
        Json::Null => JsonView::Null,
        Json::Bool(b) => JsonView::Bool(b),
        Json::Number(n) => JsonView::Number(n),
        Json::Str(s) => JsonView::Str(s@),
        Json::Array(items) => JsonView::Array(array_view(items@)),
        Json::Object(entries) => JsonView::Object(fields_of(object_view(entries@))),
    }
}

/// The values that the items of an array stand for.
pub open spec fn array_view(items: Seq<Json>) -> Seq<JsonView>
    decreases items,
{
    if items.len() == 0 {
        Seq::empty()
    } else {
        array_view(items.drop_last()).push(json_view(items.last()))
    }
}

/// The assignments that the entries of an object stand for.
pub open spec fn object_view(entries: Seq<(String, Json)>) -> Seq<(Seq<char>, JsonView)>
    decreases entries,
{
    if entries.len() == 0 {
        Seq::empty()
    } else {
        object_view(entries.drop_last()).push((entries.last().0@, json_view(entries.last().1)))
    }
}

impl View for Json {
    type V = JsonView;

    open spec fn view(&self) -> JsonView {
        json_view(*self)
    }
}

/// The views of a list of values.
pub open spec fn values(list: Seq<Json>) -> Seq<JsonView> {
    list.map_values(|v: Json| v@)
}

/// The views of a list of fields.
pub open spec fn entries_view(list: Seq<(String, Json)>) -> Seq<(Seq<char>, JsonView)> {
    list.map_values(|e: (String, Json)| (e.0@, e.1@))
}

proof fn lemma_array_items(items: Seq<Json>)
    ensures
        array_view(items) == values(items),
    decreases items.len(),
{
    if items.len() > 0 {
        lemma_array_items(items.drop_last());
    }
    assert(array_view(items) =~= values(items));
}

proof fn lemma_object_entries(entries: Seq<(String, Json)>)
    ensures
        object_view(entries) == entries_view(entries),
    decreases entries.len(),
{
    if entries.len() > 0 {
        lemma_object_entries(entries.drop_last());
    }
    assert(object_view(entries) =~= entries_view(entries));
}

pub broadcast proof fn lemma_array_view(items: Vec<Json>)
    ensures
        #[trigger] json_view(Json::Array(items)) == JsonView::Array(values(items@)),
{
    lemma_array_items(items@);
}

pub broadcast proof fn lemma_object_view(entries: Vec<(String, Json)>)
    ensures
        #[trigger] json_view(Json::Object(entries)) == JsonView::Object(
            fields_of(entries_view(entries@)),
        ),
{
    lemma_object_entries(entries@);
}

/// A field of an object; nothing else has fields.
pub open spec fn field_of(v: JsonView, key: Seq<char>) -> Option<JsonView> {
    match v {
        JsonView::Object(fields) => if fields.contains_key(key) {
            Some(fields[key])
        } else {
            None
        },
        _ => None,
    }
}

/// The text of a string value.
pub open spec fn str_of(v: JsonView) -> Option<Seq<char>> {
    match v {
        JsonView::Str(s) => Some(s),
        _ => None,
    }
}

/// The text of a field that is a string.
pub open spec fn str_field(v: JsonView, key: Seq<char>) -> Option<Seq<char>> {
    match field_of(v, key) {
        Some(f) => str_of(f),
        None => None,
    }
}

/// The truth value of a field that is one.
pub open spec fn bool_field(v: JsonView, key: Seq<char>) -> Option<bool> {
    match field_of(v, key) {
        Some(JsonView::Bool(b)) => Some(b),
        _ => None,
    }
}

/// The digits that write `c` below sixteen in hexadecimal.
pub open spec fn hex_digit(n: nat) -> char {
    if n < 10 {
        (48 + n) as char
    } else {
        (87 + n) as char
    }
}

/// How a character stands in a JSON string.
pub open spec fn escaped_char(c: char) -> Seq<char> {
    if c == '"' {
        seq!['\\', '"']
    } else if c == '\\' {
        seq!['\\', '\\']
    } else if c as u32 == 0x8 {
        seq!['\\', 'b']
    } else if c as u32 == 0xc {
        seq!['\\', 'f']
    } else if c == '\n' {
        seq!['\\', 'n']
    } else if c == '\r' {
        seq!['\\', 'r']
    } else if c == '\t' {
        seq!['\\', 't']
    } else if (c as u32) < 0x20 {
        seq!['\\', 'u', '0', '0', hex_digit((c as nat) / 16), hex_digit((c as nat) % 16)]
    } else {
        seq![c]
    }
}

pub open spec fn escaped(s: Seq<char>) -> Seq<char>
    decreases s.len(),
{
    if s.len() == 0 {
        Seq::empty()
    } else {
        escaped(s.drop_last()) + escaped_char(s.last())
    }
}

/// The JSON text of a string.
pub open spec fn quoted(s: Seq<char>) -> Seq<char> {
    seq!['"'] + escaped(s) + seq!['"']
}

/// The compact JSON text of a number or an object, as `serde_json` writes it.
pub uninterp spec fn leaf_text(v: JsonView) -> Seq<char>;

/// The compact JSON text of a value.
pub open spec fn json_text(v: JsonView) -> Seq<char>
    decreases v,
{
    match v {
        JsonView::Null => "null"@,
        JsonView::Bool(b) => if b {
            "true"@
        } else {
            "false"@
        },
        JsonView::Str(s) => quoted(s),
        JsonView::Array(items) => seq!['['] + items_text(items) + seq![']'],
        _ => leaf_text(v),
    }
}

/// The texts of the items of an array, with commas between them.
pub open spec fn items_text(items: Seq<JsonView>) -> Seq<char>
    decreases items,
{
    if items.len() == 0 {
        Seq::empty()
    } else if items.len() == 1 {
        json_text(items[0])
    } else {
        items_text(items.drop_last()) + seq![','] + json_text(items.last())
    }
}

/// The indented JSON text of a value, as `serde_json` writes it.
pub uninterp spec fn json_pretty(v: JsonView) -> Seq<char>;

/// The items of the JSON array that `source` writes, as `serde_json` reads it.
pub uninterp spec fn json_array(source: Seq<char>) -> Option<Seq<JsonView>>;

/// The JSON value that `source` writes, as `serde_json` reads it.
pub uninterp spec fn json_of_bytes(source: Seq<u8>) -> Option<JsonView>;

/// The name of a field that `serde_json` reads in a way of its own: an object that
/// starts with it is not read as an object.
pub open spec fn reserved_key() -> Seq<char> {
    "$serde_json::private::RawValue"@
}

/// Whether the text of a value can be read: no more than `depth` arrays and objects
/// stand inside each other, and none of the objects has the reserved field.
pub open spec fn readable_within(v: JsonView, depth: nat) -> bool
    decreases depth,
{
    match v {
        JsonView::Array(items) => depth > 0 && forall|i: int|
            0 <= i < items.len() ==> readable_within(#[trigger] items[i], (depth - 1) as nat),
        JsonView::Object(fields) => depth > 0 && !fields.contains_key(reserved_key()) && forall|
            k: Seq<char>,
        | #[trigger]
            fields.contains_key(k) ==> readable_within(fields[k], (depth - 1) as nat),
        _ => true,
    }
}

/// Whether a text is a whole number: digits, after a minus sign or not.
pub open spec fn is_integer_text(s: Seq<char>) -> bool {
    let digits = if s.len() > 0 && s[0] == '-' {
        s.skip(1)
    } else {
        s
    };
    digits.len() > 0 && text::all_digits(digits)
}

/// Decimal text is that of a whole number.
pub proof fn lemma_decimal_is_integer(n: nat)
    ensures
        is_integer_text(text::decimal_of(n)),
    decreases n,
{
    if n >= 10 {
        lemma_decimal_is_integer(n / 10);
        let head = text::decimal_of(n / 10);
        let whole = text::decimal_of(n);
        lemma_decimal_starts_with_a_digit(n / 10);
        assert forall|i: int| 0 <= i < whole.len() implies text::is_digit(#[trigger] whole[i]) by {
            if i < head.len() {
                assert(whole[i] == head[i]);
            }
        }
    }
}

proof fn lemma_decimal_starts_with_a_digit(n: nat)
    ensures
        text::decimal_of(n).len() > 0,
        text::is_digit(text::decimal_of(n)[0]),
    decreases n,
{
    if n >= 10 {
        lemma_decimal_starts_with_a_digit(n / 10);
        assert(text::decimal_of(n)[0] == text::decimal_of(n / 10)[0]);
    }
}

/// Whether a value is read again as it was written: no more than `depth` arrays
/// and objects stand inside each other, none of the objects has the reserved field,
/// and every number is whole.
pub open spec fn plain_within(v: JsonView, depth: nat) -> bool
    decreases depth,
{
    match v {
        JsonView::Number(_) => is_integer_text(leaf_text(v)),
        JsonView::Array(items) => depth > 0 && forall|i: int|
            0 <= i < items.len() ==> plain_within(#[trigger] items[i], (depth - 1) as nat),
        JsonView::Object(fields) => depth > 0 && !fields.contains_key(reserved_key()) && forall|
            k: Seq<char>,
        | #[trigger]
            fields.contains_key(k) ==> plain_within(fields[k], (depth - 1) as nat),
        _ => true,
    }
}

/// Reading a written value gives it back, where it is plain.
pub open spec fn reads_as(written: Seq<char>, v: JsonView) -> bool {
    plain_within(v, 127) ==> json_of_bytes(encode_utf8(written)) == Some(v)
}

/// Reading a written array gives back as many items, and each that is plain as it
/// was, if it can be read.
pub open spec fn reads_back(written: Seq<char>, v: JsonView) -> bool {
    match v {
        JsonView::Array(items) => readable_within(v, 127) ==> match json_array(written) {
            Some(read) => {
                &&& read.len() == items.len()
                &&& forall|i: int|
                    0 <= i < items.len() && plain_within(items[i], 126) ==> #[trigger] read[i]
                        == items[i]
            },
            None => false,
        },
        _ => true,
    }
}

/// `serde_json::Value`'s `to_string`: compact text, without white space between
/// its tokens, that `serde_json` reads back; except what nests too deep, objects
/// with the field that it reserves, and fractions, which it may read as a
/// neighbouring number. The text of a number or an object is a function of
/// what it holds.
#[verifier::external_body]
fn value_text(value: &serde_json::Value) -> (r: String)
    ensures
        r@ == json_text(json_content(*value)),
        json_content(*value) is Number || json_content(*value) is Object ==> r@ == leaf_text(
            json_content(*value),
        ),
        reads_back(r@, json_content(*value)),
        reads_as(r@, json_content(*value)),
{
    value.to_string()
}

/// `serde_json::to_string_pretty`, which does not fail on a `Value`: its text is
/// a function of what the value holds, and `serde_json` reads it back, with the
/// same exceptions as compact text.
#[verifier::external_body]
fn value_pretty(value: &serde_json::Value) -> (r: String)
    ensures
        r@ == json_pretty(json_content(*value)),
        reads_as(r@, json_content(*value)),
{
    serde_json::to_string_pretty(value).unwrap_or_default()
}

/// `serde_json::from_str` into a list of values: what it reads is a function of
/// the text.
#[verifier::external_body]
fn read_array(source: &str) -> (r: Option<Vec<serde_json::Value>>)
    ensures
        match r {
            Some(items) => json_array(source@) == Some(contents(items@)),
            None => json_array(source@) is None,
        },
{
    serde_json::from_str::<Vec<serde_json::Value>>(source).ok()
}

/// `serde_json::from_slice` into a value: what it reads is a function of the
/// bytes.
#[verifier::external_body]
fn read_value(source: &[u8]) -> (r: Option<serde_json::Value>)
    ensures
        match r {
            Some(value) => json_of_bytes(source@) == Some(json_content(value)),
            None => json_of_bytes(source@) is None,
        },
{
    serde_json::from_slice::<serde_json::Value>(source).ok()
}

/// The number `n`.
pub uninterp spec fn json_number(n: u64) -> serde_json::Number;

/// `serde_json::Number::from` a `u64`, a function of it that is written in decimal.
#[verifier::external_body]
pub(crate) fn number(n: u64) -> (r: serde_json::Number)
    ensures
        r == json_number(n),
        leaf_text(JsonView::Number(r)) == text::decimal_of(n as nat),
{
    serde_json::Number::from(n)
}

/// What a `serde_json::Value` holds.
pub uninterp spec fn json_content(value: serde_json::Value) -> JsonView;

/// One level of a `serde_json::Value`.
pub enum Parts {
    Null,
    Bool(bool),
    Number(serde_json::Number),
    Str(String),
    Array(Vec<serde_json::Value>),
    Object(Vec<(String, serde_json::Value)>),
}

pub open spec fn contents(list: Seq<serde_json::Value>) -> Seq<JsonView> {
    list.map_values(|v: serde_json::Value| json_content(v))
}

pub open spec fn entry_contents(list: Seq<(String, serde_json::Value)>) -> Seq<
    (Seq<char>, JsonView),
> {
    list.map_values(|e: (String, serde_json::Value)| (e.0@, json_content(e.1)))
}

pub open spec fn parts_content(parts: Parts) -> JsonView {
    match parts {
        Parts::Null => JsonView::Null,
        Parts::Bool(b) => JsonView::Bool(b),
        Parts::Number(n) => JsonView::Number(n),
        Parts::Str(s) => JsonView::Str(s@),
        Parts::Array(items) => JsonView::Array(contents(items@)),
        Parts::Object(entries) => JsonView::Object(fields_of(entry_contents(entries@))),
    }
}

/// Takes a `serde_json::Value` apart, one arm for each variant: the parts hold
/// what the value held, and no field of an object comes twice.
#[verifier::external_body]
fn take_apart(value: serde_json::Value) -> (r: Parts)
    ensures
        parts_content(r) == json_content(value),
        r matches Parts::Object(entries) ==> distinct_keys(entry_contents(entries@)),
{
    match value {
        serde_json::Value::Null => Parts::Null,
        serde_json::Value::Bool(b) => Parts::Bool(b),
        serde_json::Value::Number(n) => Parts::Number(n),
        serde_json::Value::String(s) => Parts::Str(s),
        serde_json::Value::Array(items) => Parts::Array(items),
        serde_json::Value::Object(fields) => Parts::Object(fields.into_iter().collect()),
    }
}

/// Makes a `serde_json::Value` of its parts, one arm for each variant; the
/// fields of an object go in by `serde_json::Map::insert`, in order.
#[verifier::external_body]
fn put_together(parts: Parts) -> (r: serde_json::Value)
    ensures
        json_content(r) == parts_content(parts),
{
    match parts {
        Parts::Null => serde_json::Value::Null,
        Parts::Bool(b) => serde_json::Value::Bool(b),
        Parts::Number(n) => serde_json::Value::Number(n),
        Parts::Str(s) => serde_json::Value::String(s),
        Parts::Array(items) => serde_json::Value::Array(items),
        Parts::Object(entries) => {
            let mut fields = serde_json::Map::new();
            for (key, value) in entries {
                fields.insert(key, value);
            }
            serde_json::Value::Object(fields)
        },
    }
}

/// No field is named twice.
pub open spec fn distinct_keys(entries: Seq<(Seq<char>, JsonView)>) -> bool {
    forall|i: int, j: int|
        0 <= i < j < entries.len() ==> (#[trigger] entries[i]).0 != (#[trigger] entries[j]).0
}

/// A field that is named once holds what it was given.
pub proof fn lemma_distinct_field(entries: Seq<(Seq<char>, JsonView)>, i: int)
    requires
        distinct_keys(entries),
        0 <= i < entries.len(),
    ensures
        fields_of(entries).contains_key(entries[i].0),
        fields_of(entries)[entries[i].0] == entries[i].1,
    decreases entries.len(),
{
    if i < entries.len() - 1 {
        assert(distinct_keys(entries.drop_last())) by {
            assert forall|a: int, b: int| 0 <= a < b < entries.drop_last().len() implies (
            #[trigger] entries.drop_last()[a]).0 != (#[trigger] entries.drop_last()[b]).0 by {
                assert(entries[a].0 != entries[b].0);
            }
        }
        lemma_distinct_field(entries.drop_last(), i);
        assert(entries[i].0 != entries.last().0);
    }
}

/// An object has finitely many fields.
pub proof fn lemma_fields_finite(entries: Seq<(Seq<char>, JsonView)>)
    ensures
        fields_of(entries).dom().finite(),
    decreases entries.len(),
{
    if entries.len() > 0 {
        lemma_fields_finite(entries.drop_last());
    }
}

impl Json {
    /// The value that a `serde_json::Value` holds.
    pub fn from_value(value: serde_json::Value) -> (r: Json)
        ensures
            r@ == json_content(value),
        decreases json_content(value),
    {
        broadcast use {lemma_array_view, lemma_object_view};

        match take_apart(value) {
            Parts::Null => Json::Null,
            Parts::Bool(b) => Json::Bool(b),
            Parts::Number(n) => Json::Number(n),
            Parts::Str(s) => Json::Str(s),
            Parts::Array(items) => {
                let ghost all = items@;
                let mut out: Vec<Json> = Vec::new();
                for item in it: items
                    invariant
                        it.seq() == all,
                        json_content(value) == JsonView::Array(contents(all)),
                        out@.len() == it.index(),
                        values(out@) == contents(all).take(it.index() as int),
                {
                    let ghost n = it.index() as int;
                    assert(contents(all)[n] == json_content(item));
                    assert(decreases_to!(json_content(value) => json_content(value)->Array_0));
                    assert(decreases_to!(contents(all) => contents(all)[n]));
                    let made: Json = Json::from_value(item);
                    let ghost before = out@;
                    out.push(made);
                    assert(values(out@) =~= values(before).push(made@));
                    assert(contents(all).take(n + 1) =~= contents(all).take(n).push(made@));
                }
                assert(values(out@) =~= contents(all));
                Json::Array(out)
            },
            Parts::Object(entries) => {
                let ghost all = entries@;
                let mut out: Vec<(String, Json)> = Vec::new();
                for entry in it: entries
                    invariant
                        it.seq() == all,
                        json_content(value) == JsonView::Object(fields_of(entry_contents(all))),
                        distinct_keys(entry_contents(all)),
                        out@.len() == it.index(),
                        entries_view(out@) == entry_contents(all).take(it.index() as int),
                {
                    let (key, item) = entry;
                    let ghost n = it.index() as int;
                    proof {
                        lemma_distinct_field(entry_contents(all), n);
                        lemma_fields_finite(entry_contents(all));
                    }
                    assert(entry_contents(all)[n] == (key@, json_content(item)));
                    assert(decreases_to!(json_content(value) => json_content(value)->Object_0));
                    assert(decreases_to!(fields_of(entry_contents(all)) => fields_of(
                        entry_contents(all),
                    )[key@]));
                    let made: Json = Json::from_value(item);
                    let ghost before = out@;
                    out.push((key, made));
                    assert(entries_view(out@) =~= entries_view(before).push((key@, made@)));
                    assert(entry_contents(all).take(n + 1) =~= entry_contents(all).take(n).push(
                        (key@, made@),
                    ));
                }
                assert(entries_view(out@) =~= entry_contents(all));
                Json::Object(out)
            },
        }
    }

    /// A `serde_json::Value` that holds this value.
    pub fn to_value(&self) -> (r: serde_json::Value)
        ensures
            json_content(r) == self@,
        decreases self,
    {
        broadcast use {lemma_array_view, lemma_object_view};

        match self {
            Json::Null => put_together(Parts::Null),
            Json::Bool(b) => put_together(Parts::Bool(*b)),
            Json::Number(n) => put_together(Parts::Number(n.clone())),
            Json::Str(s) => put_together(Parts::Str(s.clone())),
            Json::Array(items) => {
                let mut out: Vec<serde_json::Value> = Vec::new();
                let mut i: usize = 0;
                while i < items.len()
                    invariant
                        i == out@.len() <= items@.len(),
                        *self == Json::Array(*items),
                        contents(out@) == values(items@).take(i as int),
                    decreases items@.len() - i,
                {
                    assert(decreases_to!(*self => self->Array_0));
                    assert(decreases_to!(*items => items@));
                    assert(decreases_to!(items@ => items@[i as int]));
                    let made: serde_json::Value = items[i].to_value();
                    let ghost before = out@;
                    out.push(made);
                    assert(contents(out@) =~= contents(before).push(json_content(made)));
                    assert(values(items@).take(i + 1) =~= values(items@).take(i as int).push(
                        json_content(made),
                    ));
                    i += 1;
                }
                assert(contents(out@) =~= values(items@));
                put_together(Parts::Array(out))
            },
            Json::Object(entries) => {
                let mut out: Vec<(String, serde_json::Value)> = Vec::new();
                let mut i: usize = 0;
                while i < entries.len()
                    invariant
                        i == out@.len() <= entries@.len(),
                        *self == Json::Object(*entries),
                        entry_contents(out@) == entries_view(entries@).take(i as int),
                    decreases entries@.len() - i,
                {
                    let key: String = entries[i].0.clone();
                    assert(decreases_to!(*self => self->Object_0));
                    assert(decreases_to!(*entries => entries@));
                    assert(decreases_to!(entries@ => entries@[i as int]));
                    assert(decreases_to!(entries@[i as int] => entries@[i as int].1));
                    let made: serde_json::Value = entries[i].1.to_value();
                    let ghost before = out@;
                    out.push((key, made));
                    assert(entry_contents(out@) =~= entry_contents(before).push(
                        (key@, json_content(made)),
                    ));
                    assert(entries_view(entries@).take(i + 1) =~= entries_view(entries@).take(
                        i as int,
                    ).push((key@, json_content(made))));
                    i += 1;
                }
                assert(entry_contents(out@) =~= entries_view(entries@));
                put_together(Parts::Object(out))
            },
        }
    }

    /// The compact JSON text of this value.
    pub fn text(&self) -> (r: String)
        ensures
            r@ == json_text(self@),
            reads_back(r@, self@),
            reads_as(r@, self@),
    {
        value_text(&self.to_value())
    }

    /// The indented JSON text of this value.
    pub fn pretty(&self) -> (r: String)
        ensures
            r@ == json_pretty(self@),
            reads_as(r@, self@),
    {
        value_pretty(&self.to_value())
    }

    /// The items of the JSON array that `source` writes, if it writes one.
    pub fn parse_array(source: &str) -> (r: Option<Vec<Json>>)
        ensures
            match r {
                Some(items) => json_array(source@) == Some(values(items@)),
                None => json_array(source@) is None,
            },
    {
        let items: Vec<serde_json::Value> = match read_array(source) {
            Some(items) => items,
            None => {
                return None;
            },
        };
        let ghost all = items@;
        let mut out: Vec<Json> = Vec::new();
        for item in it: items
            invariant
                it.seq() == all,
                json_array(source@) == Some(contents(all)),
                out@.len() == it.index(),
                values(out@) == contents(all).take(it.index() as int),
        {
            let ghost n = it.index() as int;
            assert(contents(all)[n] == json_content(item));
            let made: Json = Json::from_value(item);
            let ghost before = out@;
            out.push(made);
            assert(values(out@) =~= values(before).push(made@));
            assert(contents(all).take(n + 1) =~= contents(all).take(n).push(made@));
        }
        assert(values(out@) =~= contents(all));
        Some(out)
    }

    /// The JSON value that `source` writes, if it writes one.
    pub fn parse(source: &[u8]) -> (r: Option<Json>)
        ensures
            match r {
                Some(v) => json_of_bytes(source@) == Some(v@),
                None => json_of_bytes(source@) is None,
            },
    {
        match read_value(source) {
            Some(value) => Some(Json::from_value(value)),
            None => None,
        }
    }

    /// A field of an object.
    pub fn get(&self, key: &str) -> (r: Option<&Json>)
        ensures
            match r {
                Some(v) => field_of(self@, key@) == Some(v@),
                None => field_of(self@, key@) is None,
            },
    {
        broadcast use lemma_object_view;

        match self {
            Json::Object(entries) => {
                let mut i: usize = entries.len();
                let ghost all = entries_view(entries@);
                assert(all.take(i as int) =~= all);
                while i > 0
                    invariant
                        i <= entries@.len(),
                        all == entries_view(entries@),
                        self@ == JsonView::Object(fields_of(all)),
                        fields_of(all.take(i as int)).contains_key(key@) == fields_of(
                            all,
                        ).contains_key(key@),
                        fields_of(all).contains_key(key@) ==> fields_of(all.take(i as int))[key@]
                            == fields_of(all)[key@],
                    decreases i,
                {
                    i -= 1;
                    assert(all.take(i + 1).drop_last() =~= all.take(i as int));
                    assert(all[i as int] == (entries@[i as int].0@, entries@[i as int].1@));
                    if text::same(entries[i].0.as_str(), key) {
                        return Some(&entries[i].1);
                    }
                }
                None
            },
            _ => None,
        }
    }

    /// The text of a string.
    pub fn as_str(&self) -> (r: Option<&str>)
        ensures
            match r {
                Some(s) => str_of(self@) == Some(s@),
                None => str_of(self@) is None,
            },
    {
        match self {
            Json::Str(s) => Some(s.as_str()),
            _ => None,
        }
    }

    /// The text of a field that is a string.
    pub fn get_str(&self, key: &str) -> (r: Option<&str>)
        ensures
            match r {
                Some(s) => str_field(self@, key@) == Some(s@),
                None => str_field(self@, key@) is None,
            },
    {
        match self.get(key) {
            Some(v) => v.as_str(),
            None => None,
        }
    }

    /// The truth value of a field that is one.
    pub fn get_bool(&self, key: &str) -> (r: Option<bool>)
        ensures
            r == bool_field(self@, key@),
    {
        match self.get(key) {
            Some(Json::Bool(b)) => Some(*b),
            _ => None,
        }
    }
}

impl Clone for Json {
    fn clone(&self) -> (r: Json)
        ensures
            r@ == self@,
        decreases self,
    {
        broadcast use {lemma_array_view, lemma_object_view};

        match self {
            Json::Null => Json::Null,
            Json::Bool(b) => Json::Bool(*b),
            Json::Number(n) => Json::Number(n.clone()),
            Json::Str(s) => Json::Str(s.clone()),
            Json::Array(items) => {
                let mut out: Vec<Json> = Vec::new();
                let mut i: usize = 0;
                while i < items.len()
                    invariant
                        i == out@.len() <= items@.len(),
                        *self == Json::Array(*items),
                        values(out@) == values(items@).take(i as int),
                    decreases items@.len() - i,
                {
                    assert(decreases_to!(*self => self->Array_0));
                    assert(decreases_to!(*items => items@));
                    assert(decreases_to!(items@ => items@[i as int]));
                    let made: Json = items[i].clone();
                    let ghost before = out@;
                    out.push(made);
                    assert(values(out@) =~= values(before).push(made@));
                    assert(values(items@).take(i + 1) =~= values(items@).take(i as int).push(made@));
                    i += 1;
                }
                assert(values(out@) =~= values(items@));
                Json::Array(out)
            },
            Json::Object(entries) => {
                let mut out: Vec<(String, Json)> = Vec::new();
                let mut i: usize = 0;
                while i < entries.len()
                    invariant
                        i == out@.len() <= entries@.len(),
                        *self == Json::Object(*entries),
                        entries_view(out@) == entries_view(entries@).take(i as int),
                    decreases entries@.len() - i,
                {
                    let key: String = entries[i].0.clone();
                    assert(decreases_to!(*self => self->Object_0));
                    assert(decreases_to!(*entries => entries@));
                    assert(decreases_to!(entries@ => entries@[i as int]));
                    assert(decreases_to!(entries@[i as int] => entries@[i as int].1));
                    let made: Json = entries[i].1.clone();
                    let ghost before = out@;
                    out.push((key, made));
                    assert(entries_view(out@) =~= entries_view(before).push((key@, made@)));
                    assert(entries_view(entries@).take(i + 1) =~= entries_view(entries@).take(
                        i as int,
                    ).push((key@, made@)));
                    i += 1;
                }
                assert(entries_view(out@) =~= entries_view(entries@));
                Json::Object(out)
            },
        }
    }
}

/// The fields that a list of assignments leaves are those that are named, each with
/// what it was given last.
pub proof fn law_last_assignment_counts(
    entries: Seq<(Seq<char>, JsonView)>,
    key: Seq<char>,
    at: int,
)
    ensures
        (forall|i: int| 0 <= i < entries.len() ==> (#[trigger] entries[i]).0 != key) ==> !fields_of(
            entries,
        ).contains_key(key),
        0 <= at < entries.len() && entries[at].0 == key && (forall|i: int|
            at < i < entries.len() ==> (#[trigger] entries[i]).0 != key) ==> fields_of(
            entries,
        ).contains_pair(key, entries[at].1),
    decreases entries.len(),
{
    if entries.len() > 0 {
        let earlier = entries.drop_last();
        assert forall|i: int| 0 <= i < earlier.len() implies earlier[i] == #[trigger] entries[i] by {}
        law_last_assignment_counts(earlier, key, at);
        assert(entries.last() == entries[entries.len() - 1]);
        if forall|i: int| 0 <= i < entries.len() ==> (#[trigger] entries[i]).0 != key {
            assert forall|i: int| 0 <= i < earlier.len() implies (#[trigger] earlier[i]).0
                != key by {
                assert(earlier[i] == entries[i]);
            }
        }
        if 0 <= at < earlier.len() && forall|i: int|
            at < i < entries.len() ==> (#[trigger] entries[i]).0 != key {
            assert forall|i: int| at < i < earlier.len() implies (#[trigger] earlier[i]).0 != key by {
                assert(earlier[i] == entries[i]);
            }
        }
    }
}

/// A value stands for what it is made of, item by item and field by field.
pub proof fn law_values_stand_for_their_parts(
    b: bool,
    n: serde_json::Number,
    s: String,
    items: Vec<Json>,
    entries: Vec<(String, Json)>,
)
    ensures
        Json::Null@ == JsonView::Null,
        Json::Bool(b)@ == JsonView::Bool(b),
        Json::Number(n)@ == JsonView::Number(n),
        Json::Str(s)@ == JsonView::Str(s@),
        Json::Array(items)@ is Array,
        Json::Array(items)@->Array_0.len() == items@.len(),
        forall|i: int|
            0 <= i < items@.len() ==> Json::Array(items)@->Array_0[i] == (#[trigger] items@[i])@,
        Json::Object(entries)@ is Object,
        Json::Object(entries)@->Object_0 == fields_of(
            Seq::new(entries@.len(), |i: int| (entries@[i].0@, entries@[i].1@)),
        ),
{
    broadcast use {lemma_array_view, lemma_object_view};

    assert(values(items@).len() == items@.len());
    assert(entries_view(entries@) =~= Seq::new(
        entries@.len(),
        |i: int| (entries@[i].0@, entries@[i].1@),
    ));
}

/// A field is found exactly where an object has it, with what it holds, and its text
/// or truth value where it is one.
pub proof fn law_fields_are_found(
    v: Json,
    key: &str,
    r: Option<&Json>,
    text: Option<&str>,
    truth: Option<bool>,
    whole: Option<&str>,
)
    requires
        call_ensures(Json::get, (&v, key), r),
        call_ensures(Json::get_str, (&v, key), text),
        call_ensures(Json::get_bool, (&v, key), truth),
        call_ensures(Json::as_str, (&v,), whole),
    ensures
        r is Some <==> v@ is Object && v@->Object_0.contains_key(key@),
        r matches Some(f) ==> f@ == v@->Object_0[key@],
        text is Some <==> v@ is Object && v@->Object_0.contains_key(key@)
            && v@->Object_0[key@] is Str,
        text matches Some(s) ==> v@->Object_0[key@] == JsonView::Str(s@),
        truth is Some <==> v@ is Object && v@->Object_0.contains_key(key@)
            && v@->Object_0[key@] is Bool,
        truth matches Some(b) ==> v@->Object_0[key@] == JsonView::Bool(b),
        whole is Some <==> v@ is Str,
        whole matches Some(s) ==> v@ == JsonView::Str(s@),
{
}

/// Copying, and going through `serde_json`, changes no value.
pub proof fn law_values_come_back(v: Json, copy: Json, value: serde_json::Value, back: Json)
    requires
        call_ensures(<Json as Clone>::clone, (&v,), copy),
        call_ensures(Json::to_value, (&v,), value),
        call_ensures(Json::from_value, (value,), back),
    ensures
        copy@ == v@,
        json_content(value) == v@,
        back@ == v@,
{
}

/// A text that writes a JSON value is read as that value, and one that writes an
/// array as its items; no other is read.
pub proof fn law_texts_are_read(
    source: &[u8],
    text: &str,
    r: Option<Json>,
    items: Option<Vec<Json>>,
)
    requires
        call_ensures(Json::parse, (source,), r),
        call_ensures(Json::parse_array, (text,), items),
    ensures
        r is Some <==> json_of_bytes(source@) is Some,
        r matches Some(v) ==> json_of_bytes(source@) == Some(v@),
        items is Some <==> json_array(text@) is Some,
        items matches Some(list) ==> json_array(text@)->Some_0.len() == list@.len() && forall|i: int|
            0 <= i < list@.len() ==> json_array(text@)->Some_0[i] == (#[trigger] list@[i])@,
{
    if let Some(list) = items {
        assert(values(list@).len() == list@.len());
    }
}

/// What is written of a value, in either layout, is read as the value, where no more
/// than 127 arrays and objects stand inside each other, every number is whole and no
/// object has the field that `serde_json` reserves.
pub proof fn law_written_values_are_read(v: Json, compact: String, indented: String)
    requires
        call_ensures(Json::text, (&v,), compact),
        call_ensures(Json::pretty, (&v,), indented),
        plain_within(v@, 127),
    ensures
        json_of_bytes(encode_utf8(compact@)) == Some(v@),
        json_of_bytes(encode_utf8(indented@)) == Some(v@),
        compact@ == json_text(v@),
        indented@ == json_pretty(v@),
{
}

} // verus!
