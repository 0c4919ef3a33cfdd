//! Rendering of typed values for the host.
//!
//! There are two renderings. The one for a single value shows a date in
//! milliseconds, as the host counts time, and a float as it is. The one for
//! lists and for what is nested shows a date in seconds, and a float that
//! JSON cannot hold (an infinity, a NaN) as 0. An integer is rendered in
//! the one form that JSON text has for it.

use crate::coerce::{inferred, typed};
use crate::error::ErrorView;
use crate::facet::facet_encoding_text;
use crate::host::HostView;
use crate::ip::{dotted_quad, lemma_ipv4_round_trip, mapped, shown_address};
use crate::json::{
    float_is_finite, integer, json_entry_views, json_views, lemma_json_array_view,
    lemma_json_object_view, Json, JsonView,
};
use crate::number::is_finite;
use crate::schema::FieldType;
use crate::value::{lemma_array_view, lemma_object_view, Value, ValueView};
use vstd::prelude::*;

verus! {

/// `x` held to the range of `i64`.
pub open spec fn clamp_i64(x: int) -> i64 {
    if x < i64::MIN {
        i64::MIN
    } else if x > i64::MAX {
        i64::MAX
    } else {
        x as i64
    }
}

/// The rendering of a byte string: the array of its bytes as numbers.
pub open spec fn rendered_bytes(bytes: Seq<u8>) -> Seq<JsonView> {
    Seq::new(bytes.len(), |i: int| JsonView::Unsigned(bytes[i] as u64))
}

/// The rendering of a value for lists and for what is nested.
pub open spec fn nested_rendering(v: ValueView) -> JsonView
    decreases v,
{
    match v {
        ValueView::Null => JsonView::Null,
        ValueView::Str(s) => JsonView::Str(s),
        ValueView::U64(n) => JsonView::Unsigned(n),
        ValueView::I64(n) => integer(n),
        ValueView::F64(bits) => if is_finite(bits) {
            JsonView::Float(bits)
        } else {
            JsonView::Unsigned(0)
        },
        ValueView::Bool(b) => JsonView::Bool(b),
        ValueView::Date(seconds) => integer(seconds),
        ValueView::Facet(encoded) => JsonView::Str(facet_encoding_text(encoded)),
        ValueView::Bytes(b) => JsonView::Array(rendered_bytes(b)),
        ValueView::IpAddr(a) => JsonView::Str(shown_address(a)),
        ValueView::Array(items) => JsonView::Array(
            Seq::new(
                items.len(),
                |i: int|
                    if 0 <= i < items.len() {
                        nested_rendering(items[i])
                    } else {
                        JsonView::Null
                    },
            ),
        ),
        ValueView::Object(entries) => JsonView::Object(
            Seq::new(
                entries.len(),
                |i: int|
                    if 0 <= i < entries.len() {
                        (entries[i].0, nested_rendering(entries[i].1))
                    } else {
                        (Seq::empty(), JsonView::Null)
                    },
            ),
        ),
    }
}

/// The rendering of a single value: as the nested rendering, but for a
/// date, which is shown in milliseconds, and a float, which is shown as it
/// is.
pub open spec fn rendering(v: ValueView) -> JsonView {
    match v {
        ValueView::F64(bits) => JsonView::Float(bits),
        ValueView::Date(seconds) => integer(clamp_i64(seconds * 1000)),
        _ => nested_rendering(v),
    }
}

/// The array of the bytes as numbers.
fn render_bytes(bytes: &Vec<u8>) -> (r: Vec<Json>)
    ensures
        json_views(r@) == rendered_bytes(bytes@),
{
    let mut out: Vec<Json> = Vec::new();
    let mut i: usize = 0;
    while i < bytes.len()
        invariant
            i <= bytes.len(),
            out@.len() == i,
            forall|j: int| 0 <= j < i ==> out@[j]@ == JsonView::Unsigned(bytes@[j] as u64),
        decreases bytes.len() - i,
    {
        out.push(Json::Unsigned(bytes[i] as u64));
        i += 1;
    }
    proof {
        assert(json_views(out@) =~= rendered_bytes(bytes@));
    }
    out
}

/// Renders a value for lists and for what is nested.
#[verifier::loop_isolation(false)]
pub fn value_to_serde_json(value: &Value) -> (r: Json)
    ensures
        r@ == nested_rendering(value@),
    decreases value,
{
    match value {
        Value::Null => Json::Null,
        Value::Str(s) => Json::Str(s.clone()),
        Value::U64(n) => Json::Unsigned(*n),
        Value::I64(n) => Json::integer(*n),
        Value::F64(bits) => if float_is_finite(*bits) {
            Json::Float(*bits)
        } else {
            Json::Unsigned(0)
        },
        Value::Bool(b) => Json::Bool(*b),
        Value::Date(seconds) => Json::integer(*seconds),
        Value::Facet(f) => Json::Str(f.to_string()),
        Value::Bytes(b) => {
            let items = render_bytes(b);
            proof {
                lemma_json_array_view(items);
            }
            Json::Array(items)
        },
        Value::IpAddr(a) => Json::Str(crate::ip::print(*a)),
        Value::Array(items) => {
            let mut out: Vec<Json> = Vec::new();
            let mut i: usize = 0;
            while i < items.len()
                invariant
                    i <= items.len(),
                    out@.len() == i,
                    forall|j: int| 0 <= j < i ==> out@[j]@ == nested_rendering(items@[j]@),
                decreases items.len() - i,
            {
                let c = value_to_serde_json(&items[i]);
                out.push(c);
                i += 1;
            }
            proof {
                lemma_array_view(*items);
                lemma_json_array_view(out);
                assert(json_views(out@) =~= nested_rendering(value@)->Array_0);
            }
            Json::Array(out)
        },
        Value::Object(entries) => {
            let mut out: Vec<(String, Json)> = Vec::new();
            let mut i: usize = 0;
            while i < entries.len()
                invariant
                    i <= entries.len(),
                    out@.len() == i,
                    forall|j: int|
                        0 <= j < i ==> (#[trigger] out@[j]).0@ == entries@[j].0@ && out@[j].1@
                            == nested_rendering(entries@[j].1@),
                decreases entries.len() - i,
            {
                let c = value_to_serde_json(&entries[i].1);
                out.push((entries[i].0.clone(), c));
                i += 1;
            }
            proof {
                lemma_object_view(*entries);
                lemma_json_object_view(out);
                assert(json_entry_views(out@) =~= nested_rendering(value@)->Object_0);
            }
            Json::Object(out)
        },
    }
}

/// Renders a single value.
pub fn value_to_js(value: &Value) -> (r: Json)
    ensures
        r@ == rendering(value@),
{
    match value {
        Value::F64(bits) => Json::Float(*bits),
        Value::Date(seconds) => {
            let s = *seconds;
            if s > i64::MAX / 1000 {
                Json::integer(i64::MAX)
            } else if s < i64::MIN / 1000 {
                Json::integer(i64::MIN)
            } else {
                Json::integer(s * 1000)
            }
        },
        _ => value_to_serde_json(value),
    }
}

/// A text and a boolean of the host, coerced without a declared type and
/// rendered again, either way, are the text and the boolean that they
/// were.
pub proof fn lemma_text_and_boolean_round_trip(text: Seq<char>, b: bool)
    ensures
        inferred(HostView::Str(text), false) matches Some(v) && rendering(v) == JsonView::Str(
            text,
        ) && nested_rendering(v) == JsonView::Str(text),
        inferred(HostView::Bool(b), false) matches Some(v) && rendering(v) == JsonView::Bool(b)
            && nested_rendering(v) == JsonView::Bool(b),
{
}

/// An IPv4 address given in dotted form to an IP address field is held as
/// its IPv4-mapped address, and is rendered, either way, in the same dotted
/// form again.
pub proof fn lemma_ipv4_field_round_trip(v: u32, field: Seq<char>)
    ensures
        typed(HostView::Str(dotted_quad(v)), FieldType::IpAddr, field) == Ok::<
            ValueView,
            ErrorView,
        >(ValueView::IpAddr(mapped(v))),
        rendering(ValueView::IpAddr(mapped(v))) == JsonView::Str(dotted_quad(v)),
        nested_rendering(ValueView::IpAddr(mapped(v))) == JsonView::Str(dotted_quad(v)),
{
    lemma_ipv4_round_trip(v);
}

} // verus!
