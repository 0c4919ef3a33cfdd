//! The wire form of values and documents.
//!
//! JSON has one kind of number. On the wire every value is therefore under
//! a tag that names its variant, so that an unsigned integer, a signed
//! integer, a float and a date each come back as what they were. A null is
//! the text `Null`; any other value is an object with one entry, whose key
//! is the tag.
//!
//! Under its tag a date is in whole seconds, a facet in its encoded form,
//! an address the two 64-bit halves of its number, and what is nested is
//! tagged in turn: each is written the way it is held, so that every value
//! comes back exactly.
//!
//! A wire form is written so that JSON text carries it as it is: an
//! integer that is 0 or above is written without a sign, and a float that
//! JSON text cannot write (an infinity, a NaN) is written as its bit
//! pattern, an unsigned integer. An integer is read with a sign or without
//! one.

use crate::error::{bare, Error, ErrorKind, ErrorView};
use crate::facet::Facet;
use crate::json::{
    carried, float_is_finite, integer, json_entry_views, json_views, lemma_json_array_view,
    lemma_json_object_view, Json, JsonView,
};
use crate::number::is_finite;
use crate::text::same_text;
use crate::value::{
    entry_views, lemma_array_view, lemma_object_view, outcome, views, Value, ValueView,
};
use vstd::prelude::*;

verus! {

/// 2^64: the weight of the high half of an address.
pub const TWO_64: u128 = 0x1_0000_0000_0000_0000;

/// A JSON object with one entry.
pub open spec fn tagged(tag: Seq<char>, body: JsonView) -> JsonView {
    JsonView::Object(seq![(tag, body)])
}

/// The wire form of a float: the float itself, or its bit pattern as an
/// unsigned integer if it is an infinity or a NaN.
pub open spec fn wire_float(bits: u64) -> JsonView {
    if is_finite(bits) {
        JsonView::Float(bits)
    } else {
        JsonView::Unsigned(bits)
    }
}

/// The integer of 64 signed bits that a JSON number is, with a sign or
/// without one.
pub open spec fn read_integer(j: JsonView) -> Option<i64> {
    match j {
        JsonView::Signed(n) => Some(n),
        JsonView::Unsigned(n) => if n <= i64::MAX {
            Some(n as i64)
        } else {
            None
        },
        _ => None,
    }
}

/// The float that a JSON number under the float's tag is: a float is
/// itself, and an unsigned integer is the infinity or the NaN whose bit
/// pattern it is.
pub open spec fn read_float(j: JsonView) -> Option<u64> {
    match j {
        JsonView::Float(bits) => Some(bits),
        JsonView::Unsigned(n) => if !is_finite(n) {
            Some(n)
        } else {
            None
        },
        _ => None,
    }
}

/// The wire form of a byte string: the array of its bytes as numbers.
pub open spec fn wire_bytes(bytes: Seq<u8>) -> Seq<JsonView> {
    Seq::new(bytes.len(), |i: int| JsonView::Unsigned(bytes[i] as u64))
}

/// The wire form of a value.
pub open spec fn wire(v: ValueView) -> JsonView
    decreases v,
{
    match v {
        ValueView::Null => JsonView::Str("Null"@),
        ValueView::Str(s) => tagged("Str"@, JsonView::Str(s)),
        ValueView::U64(n) => tagged("U64"@, JsonView::Unsigned(n)),
        ValueView::I64(n) => tagged("I64"@, integer(n)),
        ValueView::F64(bits) => tagged("F64"@, wire_float(bits)),
        ValueView::Bool(b) => tagged("Bool"@, JsonView::Bool(b)),
        ValueView::Date(seconds) => tagged("Date"@, integer(seconds)),
        ValueView::Facet(encoded) => tagged("Facet"@, JsonView::Str(encoded)),
        ValueView::Bytes(b) => tagged("Bytes"@, JsonView::Array(wire_bytes(b))),
        ValueView::IpAddr(a) => tagged(
            "IpAddr"@,
            JsonView::Array(
                seq![
                    JsonView::Unsigned((a / TWO_64) as u64),
                    JsonView::Unsigned((a % TWO_64) as u64),
                ],
            ),
        ),
        ValueView::Array(items) => tagged(
            "Array"@,
            JsonView::Array(
                Seq::new(
                    items.len(),
                    |i: int|
                        if 0 <= i < items.len() {
                            wire(items[i])
                        } else {
                            JsonView::Null
                        },
                ),
            ),
        ),
        ValueView::Object(entries) => tagged(
            "Object"@,
            JsonView::Array(
                Seq::new(
                    entries.len(),
                    |i: int|
                        if 0 <= i < entries.len() {
                            JsonView::Array(seq![JsonView::Str(entries[i].0), wire(entries[i].1)])
                        } else {
                            JsonView::Null
                        },
                ),
            ),
        ),
    }
}

/// The bytes that an array of numbers stands for, if each is a byte.
pub open spec fn unwire_bytes(items: Seq<JsonView>) -> Option<Seq<u8>>
    decreases items.len(),
{
    if items.len() == 0 {
        Some(Seq::empty())
    } else {
        match (unwire_bytes(items.drop_last()), items.last()) {
            (Some(bytes), JsonView::Unsigned(n)) => if n <= 255 {
                Some(bytes.push(n as u8))
            } else {
                None
            },
            _ => None,
        }
    }
}

/// The value that a wire form stands for, or `None` for what is not the
/// wire form of a value.
pub open spec fn unwire(j: JsonView) -> Option<ValueView>
    decreases j, 0nat,
{
    match j {
        JsonView::Str(s) => if s == "Null"@ {
            Some(ValueView::Null)
        } else {
            None
        },
        JsonView::Object(entries) => if entries.len() != 1 {
            None
        } else {
            let tag = entries[0].0;
            let body = entries[0].1;
            if tag == "Str"@ {
                match body {
                    JsonView::Str(s) => Some(ValueView::Str(s)),
                    _ => None,
                }
            } else if tag == "U64"@ {
                match body {
                    JsonView::Unsigned(n) => Some(ValueView::U64(n)),
                    _ => None,
                }
            } else if tag == "I64"@ {
                match read_integer(body) {
                    Some(n) => Some(ValueView::I64(n)),
                    None => None,
                }
            } else if tag == "F64"@ {
                match read_float(body) {
                    Some(bits) => Some(ValueView::F64(bits)),
                    None => None,
                }
            } else if tag == "Bool"@ {
                match body {
                    JsonView::Bool(b) => Some(ValueView::Bool(b)),
                    _ => None,
                }
            } else if tag == "Date"@ {
                match read_integer(body) {
                    Some(n) => Some(ValueView::Date(n)),
                    None => None,
                }
            } else if tag == "Facet"@ {
                match body {
                    JsonView::Str(s) => Some(ValueView::Facet(s)),
                    _ => None,
                }
            } else if tag == "Bytes"@ {
                match body {
                    JsonView::Array(items) => match unwire_bytes(items) {
                        Some(bytes) => Some(ValueView::Bytes(bytes)),
                        None => None,
                    },
                    _ => None,
                }
            } else if tag == "IpAddr"@ {
                match body {
                    JsonView::Array(items) => if items.len() == 2 {
                        match (items[0], items[1]) {
                            (JsonView::Unsigned(high), JsonView::Unsigned(low)) => Some(
                                ValueView::IpAddr((high * TWO_64 + low) as u128),
                            ),
                            _ => None,
                        }
                    } else {
                        None
                    },
                    _ => None,
                }
            } else if tag == "Array"@ {
                match body {
                    JsonView::Array(items) => match unwire_items(items) {
                        Some(values) => Some(ValueView::Array(values)),
                        None => None,
                    },
                    _ => None,
                }
            } else if tag == "Object"@ {
                match body {
                    JsonView::Array(items) => match unwire_entries(items) {
                        Some(values) => Some(ValueView::Object(values)),
                        None => None,
                    },
                    _ => None,
                }
            } else {
                None
            }
        },
        _ => None,
    }
}

/// The values that a list of wire forms stands for.
pub open spec fn unwire_items(items: Seq<JsonView>) -> Option<Seq<ValueView>>
    decreases items, 1nat,
{
    if items.len() == 0 {
        Some(Seq::empty())
    } else {
        match (unwire_items(items.drop_last()), unwire(items.last())) {
            (Some(values), Some(value)) => Some(values.push(value)),
            _ => None,
        }
    }
}

/// The keyed values that a list of pairs of a key and a wire form stands
/// for.
pub open spec fn unwire_entries(items: Seq<JsonView>) -> Option<Seq<(Seq<char>, ValueView)>>
    decreases items, 1nat,
{
    if items.len() == 0 {
        Some(Seq::empty())
    } else {
        match (unwire_entries(items.drop_last()), items.last()) {
            (Some(values), JsonView::Array(pair)) => if pair.len() == 2 {
                match (pair[0], unwire(pair[1])) {
                    (JsonView::Str(key), Some(value)) => Some(values.push((key, value))),
                    _ => None,
                }
            } else {
                None
            },
            _ => None,
        }
    }
}

/// The tags differ from each other.
pub proof fn lemma_tags()
    ensures
        "Str"@ != "U64"@,
        "Str"@ != "I64"@,
        "Str"@ != "F64"@,
        "Str"@ != "Bool"@,
        "Str"@ != "Date"@,
        "Str"@ != "Facet"@,
        "Str"@ != "Bytes"@,
        "Str"@ != "IpAddr"@,
        "Str"@ != "Array"@,
        "Str"@ != "Object"@,
        "U64"@ != "I64"@,
        "U64"@ != "F64"@,
        "U64"@ != "Bool"@,
        "U64"@ != "Date"@,
        "U64"@ != "Facet"@,
        "U64"@ != "Bytes"@,
        "U64"@ != "IpAddr"@,
        "U64"@ != "Array"@,
        "U64"@ != "Object"@,
        "I64"@ != "F64"@,
        "I64"@ != "Bool"@,
        "I64"@ != "Date"@,
        "I64"@ != "Facet"@,
        "I64"@ != "Bytes"@,
        "I64"@ != "IpAddr"@,
        "I64"@ != "Array"@,
        "I64"@ != "Object"@,
        "F64"@ != "Bool"@,
        "F64"@ != "Date"@,
        "F64"@ != "Facet"@,
        "F64"@ != "Bytes"@,
        "F64"@ != "IpAddr"@,
        "F64"@ != "Array"@,
        "F64"@ != "Object"@,
        "Bool"@ != "Date"@,
        "Bool"@ != "Facet"@,
        "Bool"@ != "Bytes"@,
        "Bool"@ != "IpAddr"@,
        "Bool"@ != "Array"@,
        "Bool"@ != "Object"@,
        "Date"@ != "Facet"@,
        "Date"@ != "Bytes"@,
        "Date"@ != "IpAddr"@,
        "Date"@ != "Array"@,
        "Date"@ != "Object"@,
        "Facet"@ != "Bytes"@,
        "Facet"@ != "IpAddr"@,
        "Facet"@ != "Array"@,
        "Facet"@ != "Object"@,
        "Bytes"@ != "IpAddr"@,
        "Bytes"@ != "Array"@,
        "Bytes"@ != "Object"@,
        "IpAddr"@ != "Array"@,
        "IpAddr"@ != "Object"@,
        "Array"@ != "Object"@,
{
    reveal_strlit("Str");
    reveal_strlit("U64");
    reveal_strlit("I64");
    reveal_strlit("F64");
    reveal_strlit("Bool");
    reveal_strlit("Date");
    reveal_strlit("Facet");
    reveal_strlit("Bytes");
    reveal_strlit("IpAddr");
    reveal_strlit("Array");
    reveal_strlit("Object");
    assert("Str"@[0] == 'S');
    assert("U64"@[0] == 'U');
    assert("I64"@[0] == 'I');
    assert("F64"@[0] == 'F');
    assert("Bool"@[1] == 'o');
    assert("Date"@[0] == 'D');
    assert("Bytes"@[1] == 'y');
    assert("Facet"@[1] == 'a');
    assert("IpAddr"@[1] == 'p');
    assert("Array"@[0] == 'A');
    assert("Object"@[0] == 'O');
}

/// The bytes come back from their wire form.
pub proof fn lemma_bytes_round_trip(bytes: Seq<u8>)
    ensures
        unwire_bytes(wire_bytes(bytes)) == Some(bytes),
    decreases bytes.len(),
{
    let w = wire_bytes(bytes);
    if bytes.len() > 0 {
        lemma_bytes_round_trip(bytes.drop_last());
        assert(w.drop_last() =~= wire_bytes(bytes.drop_last()));
        assert(bytes.drop_last().push(bytes.last()) =~= bytes);
    } else {
        assert(bytes =~= Seq::empty());
    }
}

/// Every value comes back from its wire form as what it was.
pub proof fn lemma_round_trip(v: ValueView)
    ensures
        unwire(wire(v)) == Some(v),
    decreases v, 1nat,
{
    lemma_tags();
    match v {
        ValueView::Bytes(b) => {
            lemma_bytes_round_trip(b);
        },
        ValueView::IpAddr(a) => {
            let high = (a / TWO_64) as u64;
            let low = (a % TWO_64) as u64;
            assert(high * TWO_64 + low == a);
        },
        ValueView::Array(items) => {
            let w = wire(v)->Object_0[0].1->Array_0;
            lemma_items_round_trip(v, items.len() as int);
            assert(w.take(items.len() as int) =~= w);
            assert(items.take(items.len() as int) =~= items);
        },
        ValueView::Object(entries) => {
            let w = wire(v)->Object_0[0].1->Array_0;
            lemma_entries_round_trip(v, entries.len() as int);
            assert(w.take(entries.len() as int) =~= w);
            assert(entries.take(entries.len() as int) =~= entries);
        },
        _ => {},
    }
}

/// The first `n` items of an array come back from their wire forms.
pub proof fn lemma_items_round_trip(whole: ValueView, n: int)
    requires
        whole is Array,
        0 <= n <= whole->Array_0.len(),
    ensures
        unwire_items(wire(whole)->Object_0[0].1->Array_0.take(n)) == Some(
            whole->Array_0.take(n),
        ),
    decreases whole, 0nat, n,
{
    match whole {
        ValueView::Array(items) => {
            let w = wire(whole)->Object_0[0].1->Array_0;
            if n == 0 {
                assert(items.take(0) =~= Seq::empty());
            } else {
                lemma_items_round_trip(whole, n - 1);
                lemma_round_trip(items[n - 1]);
                assert(w.take(n).drop_last() =~= w.take(n - 1));
                assert(items.take(n - 1).push(items[n - 1]) =~= items.take(n));
            }
        },
        _ => {},
    }
}

/// The first `n` entries of an object come back from their wire forms.
pub proof fn lemma_entries_round_trip(whole: ValueView, n: int)
    requires
        whole is Object,
        0 <= n <= whole->Object_0.len(),
    ensures
        unwire_entries(wire(whole)->Object_0[0].1->Array_0.take(n)) == Some(
            whole->Object_0.take(n),
        ),
    decreases whole, 0nat, n,
{
    match whole {
        ValueView::Object(entries) => {
            let w = wire(whole)->Object_0[0].1->Array_0;
            if n == 0 {
                assert(entries.take(0) =~= Seq::empty());
            } else {
                lemma_entries_round_trip(whole, n - 1);
                lemma_round_trip(entries[n - 1].1);
                assert(w.take(n).drop_last() =~= w.take(n - 1));
                assert(entries.take(n - 1).push(entries[n - 1]) =~= entries.take(n));
            }
        },
        _ => {},
    }
}

/// What JSON text carries of an object with one entry is the object with
/// what it carries of the entry.
pub proof fn lemma_tagged_is_carried(tag: Seq<char>, body: JsonView)
    ensures
        carried(tagged(tag, body)) == tagged(tag, carried(body)),
{
    assert(carried(tagged(tag, body))->Object_0 =~= seq![(tag, carried(body))]);
}

/// What JSON text carries of an array is the array of what it carries of
/// the items.
pub proof fn lemma_array_is_carried(items: Seq<JsonView>)
    requires
        forall|i: int| 0 <= i < items.len() ==> carried(#[trigger] items[i]) == items[i],
    ensures
        carried(JsonView::Array(items)) == JsonView::Array(items),
{
    assert(carried(JsonView::Array(items))->Array_0 =~= items);
}

/// JSON text carries the wire form of every value as it is.
pub proof fn lemma_wire_is_carried(v: ValueView)
    ensures
        carried(wire(v)) == wire(v),
    decreases v,
{
    match v {
        ValueView::Null => {},
        ValueView::Str(s) => {
            lemma_tagged_is_carried("Str"@, JsonView::Str(s));
        },
        ValueView::U64(n) => {
            lemma_tagged_is_carried("U64"@, JsonView::Unsigned(n));
        },
        ValueView::I64(n) => {
            lemma_tagged_is_carried("I64"@, integer(n));
        },
        ValueView::F64(bits) => {
            lemma_tagged_is_carried("F64"@, wire_float(bits));
        },
        ValueView::Bool(b) => {
            lemma_tagged_is_carried("Bool"@, JsonView::Bool(b));
        },
        ValueView::Date(seconds) => {
            lemma_tagged_is_carried("Date"@, integer(seconds));
        },
        ValueView::Facet(encoded) => {
            lemma_tagged_is_carried("Facet"@, JsonView::Str(encoded));
        },
        ValueView::Bytes(b) => {
            lemma_array_is_carried(wire_bytes(b));
            lemma_tagged_is_carried("Bytes"@, JsonView::Array(wire_bytes(b)));
        },
        ValueView::IpAddr(a) => {
            let halves = seq![
                JsonView::Unsigned((a / TWO_64) as u64),
                JsonView::Unsigned((a % TWO_64) as u64),
            ];
            lemma_array_is_carried(halves);
            lemma_tagged_is_carried("IpAddr"@, JsonView::Array(halves));
        },
        ValueView::Array(items) => {
            let forms = wire(v)->Object_0[0].1->Array_0;
            assert forall|i: int| 0 <= i < forms.len() implies carried(#[trigger] forms[i])
                == forms[i] by {
                lemma_wire_is_carried(items[i]);
            }
            lemma_array_is_carried(forms);
            lemma_tagged_is_carried("Array"@, JsonView::Array(forms));
        },
        ValueView::Object(entries) => {
            let forms = wire(v)->Object_0[0].1->Array_0;
            assert forall|i: int| 0 <= i < forms.len() implies carried(#[trigger] forms[i])
                == forms[i] by {
                lemma_wire_is_carried(entries[i].1);
                lemma_array_is_carried(seq![JsonView::Str(entries[i].0), wire(entries[i].1)]);
            }
            lemma_array_is_carried(forms);
            lemma_tagged_is_carried("Object"@, JsonView::Array(forms));
        },
    }
}

/// Every value comes back from what JSON text carries of its wire form.
pub proof fn lemma_round_trip_through_json(v: ValueView)
    ensures
        unwire(carried(wire(v))) == Some(v),
{
    lemma_wire_is_carried(v);
    lemma_round_trip(v);
}

/// An integer is read the same with a sign and without one: what JSON text
/// carries of a wire form is read as the wire form itself is.
pub proof fn lemma_integers_are_read_either_way(n: i64)
    ensures
        read_integer(JsonView::Signed(n)) == Some(n),
        read_integer(carried(JsonView::Signed(n))) == Some(n),
        n >= 0 ==> read_integer(JsonView::Unsigned(n as u64)) == Some(n),
{
}

/// A JSON object with one entry.
fn tag(name: &str, body: Json) -> (r: Json)
    ensures
        r@ == tagged(name@, body@),
{
    let mut entries: Vec<(String, Json)> = Vec::new();
    entries.push((name.to_owned(), body));
    proof {
        lemma_json_object_view(entries);
        assert(json_entry_views(entries@) =~= seq![(name@, body@)]);
    }
    Json::Object(entries)
}

/// The array of the bytes as numbers.
fn bytes_to_wire(bytes: &Vec<u8>) -> (r: Json)
    ensures
        r@ == JsonView::Array(wire_bytes(bytes@)),
{
    let mut out: Vec<Json> = Vec::new();
    let mut i: usize = 0;
    while i < bytes.len()
        invariant
            i <= bytes.len(),
            out@.len() == i,
            forall|j: int| 0 <= j < i ==> (#[trigger] out@[j])@ == JsonView::Unsigned(bytes@[j] as u64),
        decreases bytes.len() - i,
    {
        out.push(Json::Unsigned(bytes[i] as u64));
        i += 1;
    }
    proof {
        lemma_json_array_view(out);
        assert(json_views(out@) =~= wire_bytes(bytes@));
    }
    Json::Array(out)
}

/// Puts a value in its wire form.
#[verifier::loop_isolation(false)]
pub fn to_wire(value: &Value) -> (r: Json)
    ensures
        r@ == wire(value@),
    decreases value,
{
    match value {
        Value::Null => Json::Str("Null".to_owned()),
        Value::Str(s) => tag("Str", Json::Str(s.clone())),
        Value::U64(n) => tag("U64", Json::Unsigned(*n)),
        Value::I64(n) => tag("I64", Json::integer(*n)),
        Value::F64(bits) => if float_is_finite(*bits) {
            tag("F64", Json::Float(*bits))
        } else {
            tag("F64", Json::Unsigned(*bits))
        },
        Value::Bool(b) => tag("Bool", Json::Bool(*b)),
        Value::Date(seconds) => tag("Date", Json::integer(*seconds)),
        Value::Facet(f) => tag("Facet", Json::Str(f.encoded.clone())),
        Value::Bytes(b) => tag("Bytes", bytes_to_wire(b)),
        Value::IpAddr(a) => {
            let mut halves: Vec<Json> = Vec::new();
            halves.push(Json::Unsigned((*a / TWO_64) as u64));
            halves.push(Json::Unsigned((*a % TWO_64) as u64));
            proof {
                lemma_json_array_view(halves);
                assert(json_views(halves@) =~= seq![
                    JsonView::Unsigned((*a / TWO_64) as u64),
                    JsonView::Unsigned((*a % TWO_64) as u64),
                ]);
            }
            tag("IpAddr", Json::Array(halves))
        },
        Value::Array(items) => {
            let mut out: Vec<Json> = Vec::new();
            let mut i: usize = 0;
            while i < items.len()
                invariant
                    i <= items.len(),
                    out@.len() == i,
                    forall|j: int| 0 <= j < i ==> (#[trigger] out@[j])@ == wire(items@[j]@),
                decreases items.len() - i,
            {
                let c = to_wire(&items[i]);
                out.push(c);
                i += 1;
            }
            proof {
                lemma_array_view(*items);
                lemma_json_array_view(out);
                assert(json_views(out@) =~= wire(value@)->Object_0[0].1->Array_0);
            }
            tag("Array", Json::Array(out))
        },
        Value::Object(entries) => {
            let mut out: Vec<Json> = Vec::new();
            let mut i: usize = 0;
            while i < entries.len()
                invariant
                    i <= entries.len(),
                    out@.len() == i,
                    forall|j: int|
                        0 <= j < i ==> (#[trigger] out@[j])@ == JsonView::Array(
                            seq![JsonView::Str(entries@[j].0@), wire(entries@[j].1@)],
                        ),
                decreases entries.len() - i,
            {
                let c = to_wire(&entries[i].1);
                let mut pair: Vec<Json> = Vec::new();
                pair.push(Json::Str(entries[i].0.clone()));
                pair.push(c);
                proof {
                    lemma_json_array_view(pair);
                    assert(json_views(pair@) =~= seq![
                        JsonView::Str(entries@[i as int].0@),
                        wire(entries@[i as int].1@),
                    ]);
                }
                out.push(Json::Array(pair));
                i += 1;
            }
            proof {
                lemma_object_view(*entries);
                lemma_json_array_view(out);
                assert(json_views(out@) =~= wire(value@)->Object_0[0].1->Array_0);
            }
            tag("Object", Json::Array(out))
        },
    }
}

/// The outcome of reading a wire form: the value, or the refusal of what
/// is not the wire form of a value.
pub open spec fn read(j: JsonView) -> Result<ValueView, ErrorView> {
    match unwire(j) {
        Some(v) => Ok(v),
        None => Err(bare(ErrorKind::InvalidWire)),
    }
}

/// What is read from the wire form of a value is the value.
pub proof fn lemma_read_what_was_written(v: ValueView)
    ensures
        read(wire(v)) == Ok::<ValueView, ErrorView>(v),
{
    lemma_round_trip(v);
}

/// A list without values cannot be read if one of its wire forms cannot.
pub proof fn lemma_items_unread(items: Seq<JsonView>, i: int)
    requires
        0 <= i < items.len(),
        unwire(items[i]) is None,
    ensures
        unwire_items(items) is None,
    decreases items.len(),
{
    if i < items.len() - 1 {
        lemma_items_unread(items.drop_last(), i);
    }
}

/// A list of entries cannot be read if one of them is not a pair of a key
/// and a wire form.
pub proof fn lemma_entries_unread(items: Seq<JsonView>, i: int)
    requires
        0 <= i < items.len(),
        unwire_entries(items.take(i + 1)) is None,
    ensures
        unwire_entries(items) is None,
    decreases items.len(),
{
    if i < items.len() - 1 {
        assert(items.drop_last().take(i + 1) =~= items.take(i + 1));
        lemma_entries_unread(items.drop_last(), i);
    } else {
        assert(items.take(i + 1) =~= items);
    }
}

/// A list of numbers is no byte string if one of them is no byte.
pub proof fn lemma_bytes_unread(items: Seq<JsonView>, i: int)
    requires
        0 <= i < items.len(),
        !(items[i] matches JsonView::Unsigned(n) && n <= 255),
    ensures
        unwire_bytes(items) is None,
    decreases items.len(),
{
    if i < items.len() - 1 {
        lemma_bytes_unread(items.drop_last(), i);
    }
}

/// The integer that a JSON number is, with a sign or without one.
fn integer_from_wire(json: &Json) -> (r: Option<i64>)
    ensures
        r == read_integer(json@),
{
    match json {
        Json::Signed(n) => Some(*n),
        Json::Unsigned(n) => if *n <= i64::MAX as u64 {
            Some(*n as i64)
        } else {
            None
        },
        _ => None,
    }
}

/// The bytes that an array of numbers stands for.
fn bytes_from_wire(items: &Vec<Json>) -> (r: Option<Vec<u8>>)
    ensures
        match unwire_bytes(json_views(items@)) {
            Some(bytes) => r matches Some(out) && out@ == bytes,
            None => r is None,
        },
{
    let ghost all = json_views(items@);
    let mut out: Vec<u8> = Vec::new();
    let mut i: usize = 0;
    proof {
        assert(all.take(0) =~= Seq::empty());
    }
    while i < items.len()
        invariant
            i <= items.len(),
            all == json_views(items@),
            unwire_bytes(all.take(i as int)) == Some(out@),
        decreases items.len() - i,
    {
        proof {
            assert(all.take(i + 1).drop_last() =~= all.take(i as int));
            assert(all.take(i + 1).last() == items@[i as int]@);
        }
        match &items[i] {
            Json::Unsigned(n) => {
                if *n > 255 {
                    proof {
                        lemma_bytes_unread(all, i as int);
                    }
                    return None;
                }
                out.push(*n as u8);
            },
            _ => {
                proof {
                    lemma_bytes_unread(all, i as int);
                }
                return None;
            },
        }
        i += 1;
    }
    proof {
        assert(all.take(i as int) =~= all);
    }
    Some(out)
}

/// Reads the values of a list of wire forms.
fn items_from_wire(items: &Vec<Json>) -> (r: Option<Vec<Value>>)
    ensures
        match unwire_items(json_views(items@)) {
            Some(values) => r matches Some(out) && views(out@) == values,
            None => r is None,
        },
    decreases items, 1nat,
{
    let ghost all = json_views(items@);
    let mut out: Vec<Value> = Vec::new();
    let mut i: usize = 0;
    proof {
        assert(all.take(0) =~= Seq::empty());
        assert(views(out@) =~= Seq::empty());
    }
    while i < items.len()
        invariant
            i <= items.len(),
            all == json_views(items@),
            unwire_items(all.take(i as int)) == Some(views(out@)),
        decreases items.len() - i,
    {
        proof {
            assert(all.take(i + 1).drop_last() =~= all.take(i as int));
            assert(all.take(i + 1).last() == items@[i as int]@);
        }
        match value_from_wire(&items[i]) {
            Some(v) => {
                proof {
                    assert(views(out@.push(v)) =~= views(out@).push(v@));
                }
                out.push(v);
            },
            None => {
                proof {
                    lemma_items_unread(all, i as int);
                }
                return None;
            },
        }
        i += 1;
    }
    proof {
        assert(all.take(i as int) =~= all);
    }
    Some(out)
}

/// Reads the keyed values of a list of pairs of a key and a wire form.
fn entries_from_wire(items: &Vec<Json>) -> (r: Option<Vec<(String, Value)>>)
    ensures
        match unwire_entries(json_views(items@)) {
            Some(values) => r matches Some(out) && entry_views(out@) == values,
            None => r is None,
        },
    decreases items, 1nat,
{
    let ghost all = json_views(items@);
    let mut out: Vec<(String, Value)> = Vec::new();
    let mut i: usize = 0;
    proof {
        assert(all.take(0) =~= Seq::empty());
        assert(entry_views(out@) =~= Seq::empty());
    }
    while i < items.len()
        invariant
            i <= items.len(),
            all == json_views(items@),
            unwire_entries(all.take(i as int)) == Some(entry_views(out@)),
        decreases items.len() - i,
    {
        proof {
            assert(all.take(i + 1).drop_last() =~= all.take(i as int));
            assert(all.take(i + 1).last() == items@[i as int]@);
        }
        let entry = match &items[i] {
            Json::Array(pair) => {
                proof {
                    lemma_json_array_view(*pair);
                }
                if pair.len() == 2 {
                    match &pair[0] {
                        Json::Str(key) => match value_from_wire(&pair[1]) {
                            Some(v) => Some((key.clone(), v)),
                            None => None,
                        },
                        _ => None,
                    }
                } else {
                    None
                }
            },
            _ => None,
        };
        match entry {
            Some((key, v)) => {
                proof {
                    assert(entry_views(out@.push((key, v))) =~= entry_views(out@).push(
                        (key@, v@),
                    ));
                }
                out.push((key, v));
            },
            None => {
                proof {
                    lemma_entries_unread(all, i as int);
                }
                return None;
            },
        }
        i += 1;
    }
    proof {
        assert(all.take(i as int) =~= all);
    }
    Some(out)
}

/// Reads the value of a wire form.
fn value_from_wire(json: &Json) -> (r: Option<Value>)
    ensures
        match unwire(json@) {
            Some(v) => r matches Some(out) && out@ == v,
            None => r is None,
        },
    decreases json, 0nat,
{
    match json {
        Json::Str(s) => if same_text(s.as_str(), "Null") {
            Some(Value::Null)
        } else {
            None
        },
        Json::Object(entries) => {
            proof {
                lemma_json_object_view(*entries);
            }
            if entries.len() != 1 {
                return None;
            }
            let name = entries[0].0.as_str();
            let body = &entries[0].1;
            if same_text(name, "Str") {
                match body {
                    Json::Str(s) => Some(Value::Str(s.clone())),
                    _ => None,
                }
            } else if same_text(name, "U64") {
                match body {
                    Json::Unsigned(n) => Some(Value::U64(*n)),
                    _ => None,
                }
            } else if same_text(name, "I64") {
                match integer_from_wire(body) {
                    Some(n) => Some(Value::I64(n)),
                    None => None,
                }
            } else if same_text(name, "F64") {
                match body {
                    Json::Float(bits) => Some(Value::F64(*bits)),
                    Json::Unsigned(n) => if float_is_finite(*n) {
                        None
                    } else {
                        Some(Value::F64(*n))
                    },
                    _ => None,
                }
            } else if same_text(name, "Bool") {
                match body {
                    Json::Bool(b) => Some(Value::Bool(*b)),
                    _ => None,
                }
            } else if same_text(name, "Date") {
                match integer_from_wire(body) {
                    Some(n) => Some(Value::Date(n)),
                    None => None,
                }
            } else if same_text(name, "Facet") {
                match body {
                    Json::Str(s) => Some(Value::Facet(Facet { encoded: s.clone() })),
                    _ => None,
                }
            } else if same_text(name, "Bytes") {
                match body {
                    Json::Array(items) => {
                        proof {
                            lemma_json_array_view(*items);
                        }
                        match bytes_from_wire(items) {
                            Some(bytes) => Some(Value::Bytes(bytes)),
                            None => None,
                        }
                    },
                    _ => None,
                }
            } else if same_text(name, "IpAddr") {
                match body {
                    Json::Array(items) => {
                        proof {
                            lemma_json_array_view(*items);
                        }
                        if items.len() == 2 {
                            match (&items[0], &items[1]) {
                                (Json::Unsigned(high), Json::Unsigned(low)) => {
                                    assert(*high * TWO_64 + *low <= u128::MAX) by (nonlinear_arith)
                                        requires
                                            *high <= u64::MAX,
                                            *low <= u64::MAX,
                                            TWO_64 == 0x1_0000_0000_0000_0000,
                                    ;
                                    Some(Value::IpAddr((*high as u128) * TWO_64 + (*low as u128)))
                                },
                                _ => None,
                            }
                        } else {
                            None
                        }
                    },
                    _ => None,
                }
            } else if same_text(name, "Array") {
                match body {
                    Json::Array(items) => {
                        proof {
                            lemma_json_array_view(*items);
                        }
                        match items_from_wire(items) {
                            Some(values) => {
                                proof {
                                    lemma_array_view(values);
                                }
                                Some(Value::Array(values))
                            },
                            None => None,
                        }
                    },
                    _ => None,
                }
            } else if same_text(name, "Object") {
                match body {
                    Json::Array(items) => {
                        proof {
                            lemma_json_array_view(*items);
                        }
                        match entries_from_wire(items) {
                            Some(values) => {
                                proof {
                                    lemma_object_view(values);
                                }
                                Some(Value::Object(values))
                            },
                            None => None,
                        }
                    },
                    _ => None,
                }
            } else {
                None
            }
        },
        _ => None,
    }
}

/// Reads a value from its wire form.
pub fn from_wire(json: &Json) -> (r: Result<Value, Error>)
    ensures
        outcome(r) == read(json@),
{
    match value_from_wire(json) {
        Some(v) => Ok(v),
        None => Err(Error::bare(ErrorKind::InvalidWire)),
    }
}

} // verus!
