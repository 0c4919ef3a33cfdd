//! Coercion of host values into typed values.
//!
//! Without a declared type, the kind of the host value decides. Under a
//! declared type, each type accepts the host kinds that convert to it
//! without reinterpretation, and refuses every other.

use crate::date::{
    millis_to_seconds, millis_to_seconds_spec, parse_rfc3339, rfc3339_timestamp,
};
use crate::error::{about, bare, Error, ErrorKind, ErrorView};
use crate::facet::{facet_text_encoding, is_facet_text, Facet};
use crate::host::{
    host_entry_views, host_views, lemma_host_array_view, lemma_host_object_view, HostValue,
    HostView,
};
use crate::ip::denoted_address;
use crate::number::{
    classify, classify_spec, is_finite, is_integral, saturate_i64, truncated, whole_i64,
    whole_i64_spec, whole_u64, whole_u64_spec, Number,
};
use crate::schema::FieldType;
use crate::value::{
    copy_bytes, entry_views, lemma_array_view, lemma_object_view, outcome, outcomes, views, Value,
    ValueView,
};
use vstd::prelude::*;

verus! {

/// The value that a host number is without a declared type.
pub open spec fn number_value(bits: u64) -> ValueView {
    match classify_spec(bits) {
        Number::Unsigned(n) => ValueView::U64(n),
        Number::Signed(n) => ValueView::I64(n),
        Number::Float(b) => ValueView::F64(b),
    }
}

/// The value that a host value is without a declared type, or `None` for a
/// host value of a kind that no field can hold.
///
/// Text, booleans and buffers are kept as they are; a number is classified;
/// an array is inferred item by item, an object entry by entry. A null is a
/// value only inside an object.
pub open spec fn inferred(h: HostView, in_object: bool) -> Option<ValueView>
    decreases h, 0nat,
{
    match h {
        HostView::Str(s) => Some(ValueView::Str(s)),
        HostView::Bool(b) => Some(ValueView::Bool(b)),
        HostView::Number(bits) => Some(number_value(bits)),
        HostView::Buffer(b) => Some(ValueView::Bytes(b)),
        HostView::Array(items) => match inferred_items(items, in_object) {
            Some(values) => Some(ValueView::Array(values)),
            None => None,
        },
        HostView::Object(entries) => match inferred_entries(entries) {
            Some(values) => Some(ValueView::Object(values)),
            None => None,
        },
        HostView::Null => if in_object {
            Some(ValueView::Null)
        } else {
            None
        },
        HostView::Undefined | HostView::Opaque => None,
    }
}

/// The values of a list of host values, or `None` if one of them has none.
pub open spec fn inferred_items(items: Seq<HostView>, in_object: bool) -> Option<Seq<ValueView>>
    decreases items, 1nat,
{
    if items.len() == 0 {
        Some(Seq::empty())
    } else {
        match (inferred_items(items.drop_last(), in_object), inferred(items.last(), in_object)) {
            (Some(values), Some(value)) => Some(values.push(value)),
            _ => None,
        }
    }
}

/// The values of the entries of a host object, each under its key, or
/// `None` if one of them has none.
pub open spec fn inferred_entries(entries: Seq<(Seq<char>, HostView)>) -> Option<
    Seq<(Seq<char>, ValueView)>,
>
    decreases entries, 1nat,
{
    if entries.len() == 0 {
        Some(Seq::empty())
    } else {
        match (inferred_entries(entries.drop_last()), inferred(entries.last().1, true)) {
            (Some(values), Some(value)) => Some(values.push((entries.last().0, value))),
            _ => None,
        }
    }
}

/// The outcome of coercion without a declared type: the inferred value, or
/// the refusal of a host value of a kind that no field can hold.
pub open spec fn unconstrained(h: HostView, in_object: bool) -> Result<ValueView, ErrorView> {
    match inferred(h, in_object) {
        Some(v) => Ok(v),
        None => Err(bare(ErrorKind::UnsupportedValue)),
    }
}

/// A list with an item that has no value has none.
pub proof fn lemma_items_refused(items: Seq<HostView>, in_object: bool, i: int)
    requires
        0 <= i < items.len(),
        inferred(items[i], in_object) is None,
    ensures
        inferred_items(items, in_object) is None,
    decreases items.len(),
{
    if i < items.len() - 1 {
        lemma_items_refused(items.drop_last(), in_object, i);
    }
}

/// An object with an entry that has no value has none.
pub proof fn lemma_entries_refused(entries: Seq<(Seq<char>, HostView)>, i: int)
    requires
        0 <= i < entries.len(),
        inferred(entries[i].1, true) is None,
    ensures
        inferred_entries(entries) is None,
    decreases entries.len(),
{
    if i < entries.len() - 1 {
        lemma_entries_refused(entries.drop_last(), i);
    }
}

/// The value of a host number without a declared type.
fn infer_number(bits: u64) -> (v: Value)
    ensures
        v@ == number_value(bits),
{
    match classify(bits) {
        Number::Unsigned(n) => Value::U64(n),
        Number::Signed(n) => Value::I64(n),
        Number::Float(b) => Value::F64(b),
    }
}

/// Infers the values of a list of host values.
fn infer_items(items: &Vec<HostValue>, in_object: bool) -> (r: Result<Vec<Value>, Error>)
    ensures
        outcomes(r) == match inferred_items(host_views(items@), in_object) {
            Some(values) => Ok::<Seq<ValueView>, ErrorView>(values),
            None => Err(bare(ErrorKind::UnsupportedValue)),
        },
    decreases items, 1nat,
{
    let ghost all = host_views(items@);
    let mut out: Vec<Value> = Vec::new();
    let mut i: usize = 0;
    while i < items.len()
        invariant
            i <= items.len(),
            all == host_views(items@),
            inferred_items(all.take(i as int), in_object) == Some(views(out@)),
        decreases items.len() - i,
    {
        proof {
            assert(all.take(i + 1).drop_last() =~= all.take(i as int));
            assert(all.take(i + 1).last() == items@[i as int]@);
        }
        match infer(&items[i], in_object) {
            Ok(v) => {
                proof {
                    assert(views(out@.push(v)) =~= views(out@).push(v@));
                }
                out.push(v);
            },
            Err(e) => {
                proof {
                    lemma_items_refused(all, in_object, i as int);
                }
                return Err(e);
            },
        }
        i += 1;
    }
    proof {
        assert(all.take(i as int) =~= all);
    }
    Ok(out)
}

/// Infers the values of the entries of a host object.
fn infer_entries(entries: &Vec<(String, HostValue)>) -> (r: Result<Vec<(String, Value)>, Error>)
    ensures
        match inferred_entries(host_entry_views(entries@)) {
            Some(values) => r matches Ok(out) && entry_views(out@) == values,
            None => r matches Err(e) && e@ == bare(ErrorKind::UnsupportedValue),
        },
    decreases entries, 1nat,
{
    let ghost all = host_entry_views(entries@);
    let mut out: Vec<(String, Value)> = Vec::new();
    let mut i: usize = 0;
    while i < entries.len()
        invariant
            i <= entries.len(),
            all == host_entry_views(entries@),
            inferred_entries(all.take(i as int)) == Some(entry_views(out@)),
        decreases entries.len() - i,
    {
        proof {
            assert(all.take(i + 1).drop_last() =~= all.take(i as int));
            assert(all.take(i + 1).last() == (entries@[i as int].0@, entries@[i as int].1@));
        }
        match infer(&entries[i].1, true) {
            Ok(v) => {
                let key = entries[i].0.clone();
                proof {
                    assert(entry_views(out@.push((key, v))) =~= entry_views(out@).push(
                        (key@, v@),
                    ));
                }
                out.push((key, v));
            },
            Err(e) => {
                proof {
                    lemma_entries_refused(all, i as int);
                }
                return Err(e);
            },
        }
        i += 1;
    }
    proof {
        assert(all.take(i as int) =~= all);
    }
    Ok(out)
}

/// Infers the value of a host value; a null is a value only where
/// `in_object` says that the host value stands inside an object.
fn infer(value: &HostValue, in_object: bool) -> (r: Result<Value, Error>)
    ensures
        outcome(r) == unconstrained(value@, in_object),
    decreases value, 0nat,
{
    match value {
        HostValue::Str(s) => Ok(Value::Str(s.clone())),
        HostValue::Bool(b) => Ok(Value::Bool(*b)),
        HostValue::Number(bits) => Ok(infer_number(*bits)),
        HostValue::Buffer(b) => Ok(Value::Bytes(copy_bytes(b))),
        HostValue::Array(items) => {
            proof {
                lemma_host_array_view(*items);
            }
            match infer_items(items, in_object) {
                Ok(out) => {
                    proof {
                        lemma_array_view(out);
                    }
                    Ok(Value::Array(out))
                },
                Err(e) => Err(e),
            }
        },
        HostValue::Object(entries) => {
            proof {
                lemma_host_object_view(*entries);
            }
            match infer_entries(entries) {
                Ok(out) => {
                    proof {
                        lemma_object_view(out);
                    }
                    Ok(Value::Object(out))
                },
                Err(e) => Err(e),
            }
        },
        HostValue::Null => if in_object {
            Ok(Value::Null)
        } else {
            Err(Error::bare(ErrorKind::UnsupportedValue))
        },
        HostValue::Undefined => Err(Error::bare(ErrorKind::UnsupportedValue)),
        HostValue::Opaque => Err(Error::bare(ErrorKind::UnsupportedValue)),
    }
}

/// Coerces a host value without a declared type.
///
/// Text becomes `Str`, a boolean `Bool`, a buffer `Bytes`; a number becomes
/// `U64` if it is a whole number from 0 to 2^64 - 1, `I64` if it is any other
/// whole number, and `F64` otherwise; an array becomes an `Array` of its
/// items and an object an `Object` of its entries, coerced in the same way.
/// Any other host value is refused as unsupported.
pub fn extract_value(value: &HostValue) -> (r: Result<Value, Error>)
    ensures
        outcome(r) == unconstrained(value@, false),
{
    infer(value, false)
}

/// The outcome of coercion under a declared type, for a field of the given
/// name.
///
/// - `Str` takes text.
/// - `U64` takes a whole number from 0 to 2^64 - 1; `I64` takes a whole
///   number from -2^63 to 2^63 - 1; `F64` takes any number as it is.
/// - `Bool` takes a boolean.
/// - `Date` takes a whole number from -2^63 to 2^63 - 1, as milliseconds
///   since the epoch, or text, as an RFC 3339 timestamp; either way the date
///   is kept in whole seconds.
/// - `Facet` takes text that begins with `/`; `IpAddr` takes text that
///   denotes an address, and an IPv4 address is kept as its IPv4-mapped
///   address.
/// - `Bytes` takes a buffer, and nothing else.
/// - `JsonObject` takes an object, whose entries are coerced without a
///   declared type.
///
/// Every other host value is a mismatch with the declared type.
pub open spec fn typed(h: HostView, t: FieldType, field: Seq<char>) -> Result<
    ValueView,
    ErrorView,
> {
    let mismatch = Err(about(ErrorKind::TypeMismatch(t), field));
    match t {
        FieldType::Str => match h {
            HostView::Str(s) => Ok(ValueView::Str(s)),
            _ => mismatch,
        },
        FieldType::U64 => match h {
            HostView::Number(bits) => match whole_u64_spec(bits) {
                Some(n) => Ok(ValueView::U64(n)),
                None => mismatch,
            },
            _ => mismatch,
        },
        FieldType::I64 => match h {
            HostView::Number(bits) => match whole_i64_spec(bits) {
                Some(n) => Ok(ValueView::I64(n)),
                None => mismatch,
            },
            _ => mismatch,
        },
        FieldType::F64 => match h {
            HostView::Number(bits) => Ok(ValueView::F64(bits)),
            _ => mismatch,
        },
        FieldType::Bool => match h {
            HostView::Bool(b) => Ok(ValueView::Bool(b)),
            _ => mismatch,
        },
        FieldType::Date => match h {
            HostView::Number(bits) => match whole_i64_spec(bits) {
                Some(millis) => Ok(ValueView::Date(millis_to_seconds_spec(millis))),
                None => mismatch,
            },
            HostView::Str(s) => match rfc3339_timestamp(s) {
                Some(seconds) => Ok(ValueView::Date(seconds)),
                None => Err(about(ErrorKind::InvalidDate, s)),
            },
            _ => mismatch,
        },
        FieldType::Facet => match h {
            HostView::Str(s) => if is_facet_text(s) {
                Ok(ValueView::Facet(facet_text_encoding(s)))
            } else {
                Err(about(ErrorKind::InvalidFacet, s))
            },
            _ => mismatch,
        },
        FieldType::Bytes => match h {
            HostView::Buffer(b) => Ok(ValueView::Bytes(b)),
            _ => Err(bare(ErrorKind::ExpectedBuffer)),
        },
        FieldType::IpAddr => match h {
            HostView::Str(s) => match denoted_address(s) {
                Some(address) => Ok(ValueView::IpAddr(address)),
                None => Err(about(ErrorKind::InvalidIpAddr, s)),
            },
            _ => mismatch,
        },
        FieldType::JsonObject => match h {
            HostView::Object(entries) => match inferred_entries(entries) {
                Some(values) => Ok(ValueView::Object(values)),
                None => Err(bare(ErrorKind::UnsupportedValue)),
            },
            _ => mismatch,
        },
    }
}

/// The outcome of coercing each item of a list under a declared type: the
/// values in order, or the error of the first item that has one.
pub open spec fn typed_items(items: Seq<HostView>, t: FieldType, field: Seq<char>) -> Result<
    Seq<ValueView>,
    ErrorView,
>
    decreases items.len(),
{
    if items.len() == 0 {
        Ok(Seq::empty())
    } else {
        match typed_items(items.drop_last(), t, field) {
            Err(e) => Err(e),
            Ok(values) => match typed(items.last(), t, field) {
                Err(e) => Err(e),
                Ok(value) => Ok(values.push(value)),
            },
        }
    }
}

/// The list of values that a field receives from a host value without a
/// declared type: an array gives its items, anything else the one value.
pub open spec fn untyped_list(h: HostView) -> Result<Seq<ValueView>, ErrorView> {
    match h {
        HostView::Array(items) => match inferred_items(items, false) {
            Some(values) => Ok(values),
            None => Err(bare(ErrorKind::UnsupportedValue)),
        },
        _ => match unconstrained(h, false) {
            Ok(value) => Ok(seq![value]),
            Err(e) => Err(e),
        },
    }
}

/// The list of values that a field of a declared type receives from a host
/// value: an array gives its items, anything else the one value. A bytes
/// field takes no array.
pub open spec fn typed_list(h: HostView, t: FieldType, field: Seq<char>) -> Result<
    Seq<ValueView>,
    ErrorView,
> {
    match h {
        HostView::Array(items) => if t == FieldType::Bytes {
            Err(bare(ErrorKind::ExpectedBuffer))
        } else {
            typed_items(items, t, field)
        },
        _ => match typed(h, t, field) {
            Ok(value) => Ok(seq![value]),
            Err(e) => Err(e),
        },
    }
}

/// The error of an item is the error of the list, if the items before it
/// have none.
pub proof fn lemma_first_error(
    items: Seq<HostView>,
    t: FieldType,
    field: Seq<char>,
    i: int,
    e: ErrorView,
)
    requires
        0 <= i < items.len(),
        typed_items(items.take(i), t, field) is Ok,
        typed(items[i], t, field) == Err::<ValueView, ErrorView>(e),
    ensures
        typed_items(items, t, field) == Err::<Seq<ValueView>, ErrorView>(e),
    decreases items.len(),
{
    if i < items.len() - 1 {
        assert(items.drop_last().take(i) =~= items.take(i));
        lemma_first_error(items.drop_last(), t, field, i, e);
    } else {
        assert(items.drop_last() =~= items.take(i));
    }
}

/// Coerces a host value under the declared type of the field it is for.
pub fn extract_value_for_type(value: &HostValue, tv_type: FieldType, field_name: &str) -> (r:
    Result<Value, Error>)
    ensures
        outcome(r) == typed(value@, tv_type, field_name@),
{
    match tv_type {
        FieldType::Str => match value {
            HostValue::Str(s) => Ok(Value::Str(s.clone())),
            _ => Err(Error::new(ErrorKind::TypeMismatch(tv_type), field_name)),
        },
        FieldType::U64 => match value {
            HostValue::Number(bits) => match whole_u64(*bits) {
                Some(n) => Ok(Value::U64(n)),
                None => Err(Error::new(ErrorKind::TypeMismatch(tv_type), field_name)),
            },
            _ => Err(Error::new(ErrorKind::TypeMismatch(tv_type), field_name)),
        },
        FieldType::I64 => match value {
            HostValue::Number(bits) => match whole_i64(*bits) {
                Some(n) => Ok(Value::I64(n)),
                None => Err(Error::new(ErrorKind::TypeMismatch(tv_type), field_name)),
            },
            _ => Err(Error::new(ErrorKind::TypeMismatch(tv_type), field_name)),
        },
        FieldType::F64 => match value {
            HostValue::Number(bits) => Ok(Value::F64(*bits)),
            _ => Err(Error::new(ErrorKind::TypeMismatch(tv_type), field_name)),
        },
        FieldType::Bool => match value {
            HostValue::Bool(b) => Ok(Value::Bool(*b)),
            _ => Err(Error::new(ErrorKind::TypeMismatch(tv_type), field_name)),
        },
        FieldType::Date => match value {
            HostValue::Number(bits) => match whole_i64(*bits) {
                Some(millis) => Ok(Value::Date(millis_to_seconds(millis))),
                None => Err(Error::new(ErrorKind::TypeMismatch(tv_type), field_name)),
            },
            HostValue::Str(s) => match parse_rfc3339(s.as_str()) {
                Some(seconds) => Ok(Value::Date(seconds)),
                None => Err(Error::new(ErrorKind::InvalidDate, s.as_str())),
            },
            _ => Err(Error::new(ErrorKind::TypeMismatch(tv_type), field_name)),
        },
        FieldType::Facet => match value {
            HostValue::Str(s) => match Facet::from_text(s.as_str()) {
                Some(facet) => Ok(Value::Facet(facet)),
                None => Err(Error::new(ErrorKind::InvalidFacet, s.as_str())),
            },
            _ => Err(Error::new(ErrorKind::TypeMismatch(tv_type), field_name)),
        },
        FieldType::Bytes => match value {
            HostValue::Buffer(b) => Ok(Value::Bytes(copy_bytes(b))),
            _ => Err(Error::bare(ErrorKind::ExpectedBuffer)),
        },
        FieldType::IpAddr => match value {
            HostValue::Str(s) => match crate::ip::parse(s.as_str()) {
                Some(address) => Ok(Value::IpAddr(address)),
                None => Err(Error::new(ErrorKind::InvalidIpAddr, s.as_str())),
            },
            _ => Err(Error::new(ErrorKind::TypeMismatch(tv_type), field_name)),
        },
        FieldType::JsonObject => match value {
            HostValue::Object(entries) => {
                proof {
                    lemma_host_object_view(*entries);
                }
                match infer_entries(entries) {
                    Ok(out) => {
                        proof {
                            lemma_object_view(out);
                        }
                        Ok(Value::Object(out))
                    },
                    Err(e) => Err(e),
                }
            },
            _ => Err(Error::new(ErrorKind::TypeMismatch(tv_type), field_name)),
        },
    }
}

/// The list of values that a field receives from a host value without a
/// declared type. Text is one value, never a list of characters.
pub fn extract_value_single_or_list(value: &HostValue) -> (r: Result<Vec<Value>, Error>)
    ensures
        outcomes(r) == untyped_list(value@),
{
    match value {
        HostValue::Array(items) => {
            proof {
                lemma_host_array_view(*items);
            }
            infer_items(items, false)
        },
        _ => match infer(value, false) {
            Ok(v) => {
                let mut out: Vec<Value> = Vec::new();
                out.push(v);
                proof {
                    assert(views(out@) =~= seq![v@]);
                }
                Ok(out)
            },
            Err(e) => Err(e),
        },
    }
}

/// The list of values that a field of a declared type receives from a
/// host value.
pub fn extract_value_single_or_list_for_type(
    value: &HostValue,
    field_type: FieldType,
    field_name: &str,
) -> (r: Result<Vec<Value>, Error>)
    ensures
        outcomes(r) == typed_list(value@, field_type, field_name@),
{
    match value {
        HostValue::Array(items) => {
            proof {
                lemma_host_array_view(*items);
            }
            if field_type == FieldType::Bytes {
                return Err(Error::bare(ErrorKind::ExpectedBuffer));
            }
            let ghost all = host_views(items@);
            let mut out: Vec<Value> = Vec::new();
            let mut i: usize = 0;
            proof {
                assert(all.take(0) =~= Seq::empty());
                assert(views(out@) =~= Seq::empty());
            }
            while i < items.len()
                invariant
                    i <= items.len(),
                    all == host_views(items@),
                    value@ == HostView::Array(all),
                    field_type != FieldType::Bytes,
                    typed_items(all.take(i as int), field_type, field_name@) == Ok::<
                        Seq<ValueView>,
                        ErrorView,
                    >(views(out@)),
                decreases items.len() - i,
            {
                proof {
                    assert(all.take(i + 1).drop_last() =~= all.take(i as int));
                    assert(all.take(i + 1).last() == items@[i as int]@);
                }
                match extract_value_for_type(&items[i], field_type, field_name) {
                    Ok(v) => {
                        proof {
                            assert(views(out@.push(v)) =~= views(out@).push(v@));
                        }
                        out.push(v);
                    },
                    Err(e) => {
                        proof {
                            lemma_first_error(all, field_type, field_name@, i as int, e@);
                        }
                        return Err(e);
                    },
                }
                i += 1;
            }
            proof {
                assert(all.take(i as int) =~= all);
            }
            Ok(out)
        },
        _ => match extract_value_for_type(value, field_type, field_name) {
            Ok(v) => {
                let mut out: Vec<Value> = Vec::new();
                out.push(v);
                proof {
                    assert(views(out@) =~= seq![v@]);
                }
                Ok(out)
            },
            Err(e) => Err(e),
        },
    }
}

/// How a host number is coerced without a declared type: a whole number
/// from 0 to 2^64 - 1 is that unsigned integer; any other whole number is a
/// signed integer, the nearest that 64 bits hold; a finite number that is
/// not whole, an infinity and a NaN stay the float they are.
pub proof fn lemma_number_coercion(bits: u64)
    ensures
        is_integral(bits) && 0 <= truncated(bits) <= u64::MAX ==> inferred(
            HostView::Number(bits),
            false,
        ) == Some(ValueView::U64(truncated(bits) as u64)),
        is_integral(bits) && !(0 <= truncated(bits) <= u64::MAX) ==> inferred(
            HostView::Number(bits),
            false,
        ) == Some(ValueView::I64(saturate_i64(truncated(bits)))),
        !is_integral(bits) ==> inferred(HostView::Number(bits), false) == Some(
            ValueView::F64(bits),
        ),
        is_integral(bits) ==> is_finite(bits),
{
}

/// An integer field takes the whole numbers of its range, each as the
/// integer it is, and refuses every other number as a mismatch with the
/// declared type: a negative number under an unsigned field, a number
/// with a fractional part, an infinity, a NaN.
pub proof fn lemma_integer_fields(bits: u64, field: Seq<char>)
    ensures
        typed(HostView::Number(bits), FieldType::U64, field) == if is_integral(bits) && 0
            <= truncated(bits) <= u64::MAX {
            Ok::<ValueView, ErrorView>(ValueView::U64(truncated(bits) as u64))
        } else {
            Err(about(ErrorKind::TypeMismatch(FieldType::U64), field))
        },
        typed(HostView::Number(bits), FieldType::I64, field) == if is_integral(bits) && i64::MIN
            <= truncated(bits) <= i64::MAX {
            Ok::<ValueView, ErrorView>(ValueView::I64(truncated(bits) as i64))
        } else {
            Err(about(ErrorKind::TypeMismatch(FieldType::I64), field))
        },
        is_integral(bits) && truncated(bits) < 0 ==> typed(
            HostView::Number(bits),
            FieldType::U64,
            field,
        ) == Err::<ValueView, ErrorView>(about(ErrorKind::TypeMismatch(FieldType::U64), field)),
        ErrorKind::TypeMismatch(FieldType::U64).spec_status() == crate::error::Status::TypeMismatch,
{
}

/// A bytes field takes a buffer as it is, byte for byte, and refuses an
/// array, whatever is in it, as an invalid argument.
pub proof fn lemma_bytes_field(bytes: Seq<u8>, items: Seq<HostView>, field: Seq<char>)
    ensures
        typed_list(HostView::Buffer(bytes), FieldType::Bytes, field) == Ok::<
            Seq<ValueView>,
            ErrorView,
        >(seq![ValueView::Bytes(bytes)]),
        typed_list(HostView::Array(items), FieldType::Bytes, field) == Err::<
            Seq<ValueView>,
            ErrorView,
        >(bare(ErrorKind::ExpectedBuffer)),
        ErrorKind::ExpectedBuffer.spec_status() == crate::error::Status::InvalidArg,
{
}

} // verus!
