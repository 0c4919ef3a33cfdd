//! Terms: the encoded form under which a value is looked up in the index.
//!
//! A term is a string of bytes: the field's identifier in four bytes, high
//! byte first; one byte for the type; then the value. Two terms are the
//! same term when their bytes are the same.

use crate::coerce::{extract_value_for_type, typed};
use crate::date::{in_engine_range, is_in_engine_range};
use crate::error::{about, bare, Error, ErrorKind, ErrorView};
use crate::host::{HostValue, HostView};
use crate::number::{sortable, sortable_spec, SIGN_BIT};
use crate::schema::{lemma_position_of, position_of, FieldEntry, FieldType, Schema};
use crate::value::{same_bytes, Value, ValueView};
use vstd::prelude::*;
use vstd::utf8::encode_utf8;

verus! {

/// The byte that stands for a type in a term.
pub open spec fn type_code(t: FieldType) -> u8 {
    match t {
        FieldType::Str => 115,
        FieldType::U64 => 117,
        FieldType::I64 => 105,
        FieldType::F64 => 102,
        FieldType::Bool => 111,
        FieldType::Date => 100,
        FieldType::Facet => 104,
        FieldType::Bytes => 98,
        FieldType::JsonObject => 106,
        FieldType::IpAddr => 112,
    }
}

/// The `width` low bytes of `x`, high byte first.
pub open spec fn be_bytes(x: int, width: nat) -> Seq<u8>
    decreases width,
{
    if width == 0 {
        Seq::empty()
    } else {
        be_bytes(x / 256, (width - 1) as nat).push((x % 256) as u8)
    }
}

/// The bytes of a term: field, type, value.
pub open spec fn term_bytes(field: u32, t: FieldType, payload: Seq<u8>) -> Seq<u8> {
    be_bytes(field as int, 4) + seq![type_code(t)] + payload
}

/// The nanoseconds in a second.
pub const NANOS_PER_SECOND: i64 = 1_000_000_000;

/// The value bytes of a term on a JSON field that addresses the given path;
/// the engine's path syntax decides them.
pub uninterp spec fn json_path_payload(path: Seq<char>) -> Seq<u8>;

/// A term. It is made by the functions of this module, and by nothing
/// else.
#[derive(Clone, Debug, PartialEq, Eq, PartialOrd, Ord, Hash)]
pub struct Term {
    bytes: Vec<u8>,
}

impl View for Term {
    type V = Seq<u8>;

    closed spec fn view(&self) -> Seq<u8> {
        self.bytes@
    }
}

/// `tantivy::Term::from_field_text`: the value bytes are the text in UTF-8.
#[verifier::external_body]
fn text_term(field: u32, text: &str) -> (r: Vec<u8>)
    ensures
        r@ == term_bytes(field, FieldType::Str, encode_utf8(text@)),
{
    tantivy::Term::from_field_text(tantivy::schema::Field::from_field_id(field), text)
        .serialized_term().to_vec()
}

/// `tantivy::Term::from_field_u64`: the value bytes are the number in eight
/// bytes, high byte first.
#[verifier::external_body]
fn u64_term(field: u32, value: u64) -> (r: Vec<u8>)
    ensures
        r@ == term_bytes(field, FieldType::U64, be_bytes(value as int, 8)),
{
    tantivy::Term::from_field_u64(tantivy::schema::Field::from_field_id(field), value)
        .serialized_term().to_vec()
}

/// `tantivy::Term::from_field_i64`: the value bytes are the number moved up
/// by 2^63, so that it is not negative, in eight bytes, high byte first.
#[verifier::external_body]
fn i64_term(field: u32, value: i64) -> (r: Vec<u8>)
    ensures
        r@ == term_bytes(field, FieldType::I64, be_bytes(value + SIGN_BIT, 8)),
{
    tantivy::Term::from_field_i64(tantivy::schema::Field::from_field_id(field), value)
        .serialized_term().to_vec()
}

/// `tantivy::Term::from_field_bool`: the value bytes are 1 or 0 in eight
/// bytes, high byte first.
#[verifier::external_body]
fn bool_term(field: u32, value: bool) -> (r: Vec<u8>)
    ensures
        r@ == term_bytes(
            field,
            FieldType::Bool,
            be_bytes(
                if value {
                    1
                } else {
                    0
                },
                8,
            ),
        ),
{
    tantivy::Term::from_field_bool(tantivy::schema::Field::from_field_id(field), value)
        .serialized_term().to_vec()
}

/// `tantivy::Term::from_field_date` on `tantivy::DateTime::from_timestamp_secs`:
/// the value bytes are the date in nanoseconds, moved up by 2^63, in eight
/// bytes, high byte first. The date must be one whose nanoseconds fit.
#[verifier::external_body]
fn date_term(field: u32, seconds: i64) -> (r: Vec<u8>)
    requires
        in_engine_range(seconds),
    ensures
        r@ == term_bytes(
            field,
            FieldType::Date,
            be_bytes(seconds * NANOS_PER_SECOND + SIGN_BIT, 8),
        ),
{
    let date = tantivy::DateTime::from_timestamp_secs(seconds);
    tantivy::Term::from_field_date(tantivy::schema::Field::from_field_id(field), date)
        .serialized_term().to_vec()
}

/// `tantivy::Term::from_facet`: the value bytes are the facet's encoded
/// form in UTF-8.
#[verifier::external_body]
fn facet_term(field: u32, encoded: &str) -> (r: Vec<u8>)
    ensures
        r@ == term_bytes(field, FieldType::Facet, encode_utf8(encoded@)),
{
    let facet = tantivy::schema::Facet::from_encoded(encoded.as_bytes().to_vec()).unwrap_or_default();
    tantivy::Term::from_facet(tantivy::schema::Field::from_field_id(field), &facet)
        .serialized_term().to_vec()
}

/// `tantivy::Term::from_field_bytes`: the value bytes are the bytes given.
#[verifier::external_body]
fn bytes_term(field: u32, bytes: &Vec<u8>) -> (r: Vec<u8>)
    ensures
        r@ == term_bytes(field, FieldType::Bytes, bytes@),
{
    tantivy::Term::from_field_bytes(tantivy::schema::Field::from_field_id(field), bytes)
        .serialized_term().to_vec()
}

/// `tantivy::Term::from_field_ip_addr`: the value bytes are the address in
/// sixteen bytes, high byte first.
#[verifier::external_body]
fn ip_term(field: u32, address: u128) -> (r: Vec<u8>)
    ensures
        r@ == term_bytes(field, FieldType::IpAddr, be_bytes(address as int, 16)),
{
    tantivy::Term::from_field_ip_addr(tantivy::schema::Field::from_field_id(field), address.into())
        .serialized_term().to_vec()
}

/// `tantivy::Term::from_field_json_path`, with dots not expanded: the value
/// bytes are a function of the path alone.
#[verifier::external_body]
fn json_path_term(field: u32, path: &str) -> (r: Vec<u8>)
    ensures
        r@ == term_bytes(field, FieldType::JsonObject, json_path_payload(path@)),
{
    tantivy::Term::from_field_json_path(tantivy::schema::Field::from_field_id(field), path, false)
        .serialized_term().to_vec()
}

/// The byte of `x` that has `below` bytes below it.
fn byte_of(x: u64, below: u32) -> (b: u8)
    requires
        below < 8,
    ensures
        b == (x as int / pow256(below as nat)) % 256,
{
    let mut shifted: u64 = x;
    let mut i: u32 = 0;
    while i < below
        invariant
            i <= below < 8,
            shifted == x as int / pow256(i as nat),
        decreases below - i,
    {
        proof {
            lemma_pow256_positive(i as nat);
            vstd::arithmetic::div_mod::lemma_div_denominator(x as int, pow256(i as nat), 256);
        }
        shifted = shifted / 256;
        i += 1;
    }
    (shifted % 256) as u8
}

/// 256 to the power of `n`.
pub open spec fn pow256(n: nat) -> int
    decreases n,
{
    if n == 0 {
        1
    } else {
        256 * pow256((n - 1) as nat)
    }
}

pub proof fn lemma_pow256_positive(n: nat)
    ensures
        pow256(n) > 0,
    decreases n,
{
    if n > 0 {
        lemma_pow256_positive((n - 1) as nat);
    }
}

/// The bytes of `be_bytes`, one by one.
pub proof fn lemma_be_bytes_index(x: int, width: nat, i: int)
    requires
        0 <= i < width,
        0 <= x,
    ensures
        be_bytes(x, width).len() == width,
        be_bytes(x, width)[i] == ((x / pow256((width - 1 - i) as nat)) % 256) as u8,
    decreases width,
{
    lemma_be_bytes_len(x, width);
    if i < width - 1 {
        lemma_be_bytes_index(x / 256, (width - 1) as nat, i);
        lemma_pow256_positive((width - 2 - i) as nat);
        vstd::arithmetic::div_mod::lemma_div_denominator(
            x,
            256,
            pow256((width - 2 - i) as nat),
        );
    }
}

pub proof fn lemma_be_bytes_len(x: int, width: nat)
    ensures
        be_bytes(x, width).len() == width,
    decreases width,
{
    if width > 0 {
        lemma_be_bytes_len(x / 256, (width - 1) as nat);
    }
}

impl Term {
    /// The term of a text on a field: the text as it is, which no tokenizer
    /// has seen.
    pub fn from_field_text(field: u32, text: &str) -> (t: Term)
        ensures
            t@ == term_bytes(field, FieldType::Str, encode_utf8(text@)),
    {
        Term { bytes: text_term(field, text) }
    }

    pub fn from_field_u64(field: u32, value: u64) -> (t: Term)
        ensures
            t@ == term_bytes(field, FieldType::U64, be_bytes(value as int, 8)),
    {
        Term { bytes: u64_term(field, value) }
    }

    pub fn from_field_i64(field: u32, value: i64) -> (t: Term)
        ensures
            t@ == term_bytes(field, FieldType::I64, be_bytes(value + SIGN_BIT, 8)),
    {
        Term { bytes: i64_term(field, value) }
    }

    /// The term of a float, given by its bit pattern, on a field. The value
    /// bytes are the pattern under which floats order as the numbers do.
    pub fn from_field_f64(field: u32, bits: u64) -> (t: Term)
        ensures
            t@ == term_bytes(field, FieldType::F64, be_bytes(sortable_spec(bits) as int, 8)),
    {
        let key = sortable(bits);
        let mut bytes: Vec<u8> = Vec::new();
        let id: u64 = field as u64;
        bytes.push(byte_of(id, 3));
        bytes.push(byte_of(id, 2));
        bytes.push(byte_of(id, 1));
        bytes.push(byte_of(id, 0));
        bytes.push(102u8);
        bytes.push(byte_of(key, 7));
        bytes.push(byte_of(key, 6));
        bytes.push(byte_of(key, 5));
        bytes.push(byte_of(key, 4));
        bytes.push(byte_of(key, 3));
        bytes.push(byte_of(key, 2));
        bytes.push(byte_of(key, 1));
        bytes.push(byte_of(key, 0));
        proof {
            let want = term_bytes(field, FieldType::F64, be_bytes(key as int, 8));
            lemma_be_bytes_len(field as int, 4);
            lemma_be_bytes_len(key as int, 8);
            assert forall|i: int| 0 <= i < 13 implies bytes@[i] == want[i] by {
                if i < 4 {
                    lemma_be_bytes_index(field as int, 4, i);
                } else if i > 4 {
                    lemma_be_bytes_index(key as int, 8, i - 5);
                }
            }
            assert(bytes@ =~= want);
        }
        Term { bytes }
    }

    pub fn from_field_bool(field: u32, value: bool) -> (t: Term)
        ensures
            t@ == term_bytes(
                field,
                FieldType::Bool,
                be_bytes(
                    if value {
                        1
                    } else {
                        0
                    },
                    8,
                ),
            ),
    {
        Term { bytes: bool_term(field, value) }
    }

    /// The term of a date, in whole seconds, on a field, if the engine can
    /// hold the date.
    pub fn from_field_date(field: u32, seconds: i64) -> (r: Option<Term>)
        ensures
            r is Some <==> in_engine_range(seconds),
            r matches Some(t) ==> t@ == term_bytes(
                field,
                FieldType::Date,
                be_bytes(seconds * NANOS_PER_SECOND + SIGN_BIT, 8),
            ),
    {
        if is_in_engine_range(seconds) {
            Some(Term { bytes: date_term(field, seconds) })
        } else {
            None
        }
    }

    /// The term of a facet, given in encoded form, on a field.
    pub fn from_facet(field: u32, facet: &crate::facet::Facet) -> (t: Term)
        ensures
            t@ == term_bytes(field, FieldType::Facet, encode_utf8(facet@)),
    {
        Term { bytes: facet_term(field, facet.encoded.as_str()) }
    }

    pub fn from_field_bytes(field: u32, bytes: &Vec<u8>) -> (t: Term)
        ensures
            t@ == term_bytes(field, FieldType::Bytes, bytes@),
    {
        Term { bytes: bytes_term(field, bytes) }
    }

    pub fn from_field_ip_addr(field: u32, address: u128) -> (t: Term)
        ensures
            t@ == term_bytes(field, FieldType::IpAddr, be_bytes(address as int, 16)),
    {
        Term { bytes: ip_term(field, address) }
    }

    /// The term on a JSON field that addresses a path.
    pub fn from_field_json_path(field: u32, path: &str) -> (t: Term)
        ensures
            t@ == term_bytes(field, FieldType::JsonObject, json_path_payload(path@)),
    {
        Term { bytes: json_path_term(field, path) }
    }

    /// The bytes of the term.
    pub fn serialized_term(&self) -> (r: &Vec<u8>)
        ensures
            r@ == self@,
    {
        &self.bytes
    }

    /// Whether two terms are the same term.
    pub fn same(&self, other: &Term) -> (r: bool)
        ensures
            r == (self@ == other@),
    {
        same_bytes(&self.bytes, &other.bytes)
    }

    pub fn duplicate(&self) -> (t: Term)
        ensures
            t@ == self@,
    {
        Term { bytes: crate::value::copy_bytes(&self.bytes) }
    }
}

/// What the outcome of building a term stands for.
pub open spec fn term_outcome(r: Result<Term, Error>) -> Result<Seq<u8>, ErrorView> {
    match r {
        Ok(t) => Ok(t@),
        Err(e) => Err(e@),
    }
}

/// The term of a typed value on a field. A date must be one the engine can
/// hold; a null, an array and an object have no term.
pub open spec fn encoded(field: u32, v: ValueView) -> Result<Seq<u8>, ErrorView> {
    match v {
        ValueView::Str(s) => Ok(term_bytes(field, FieldType::Str, encode_utf8(s))),
        ValueView::U64(n) => Ok(term_bytes(field, FieldType::U64, be_bytes(n as int, 8))),
        ValueView::I64(n) => Ok(term_bytes(field, FieldType::I64, be_bytes(n + SIGN_BIT, 8))),
        ValueView::F64(bits) => Ok(
            term_bytes(field, FieldType::F64, be_bytes(sortable_spec(bits) as int, 8)),
        ),
        ValueView::Bool(b) => Ok(
            term_bytes(
                field,
                FieldType::Bool,
                be_bytes(
                    if b {
                        1
                    } else {
                        0
                    },
                    8,
                ),
            ),
        ),
        ValueView::Date(seconds) => if in_engine_range(seconds) {
            Ok(
                term_bytes(
                    field,
                    FieldType::Date,
                    be_bytes(seconds * NANOS_PER_SECOND + SIGN_BIT, 8),
                ),
            )
        } else {
            Err(bare(ErrorKind::DateOutOfRange))
        },
        ValueView::Facet(e) => Ok(term_bytes(field, FieldType::Facet, encode_utf8(e))),
        ValueView::Bytes(b) => Ok(term_bytes(field, FieldType::Bytes, b)),
        ValueView::IpAddr(a) => Ok(term_bytes(field, FieldType::IpAddr, be_bytes(a as int, 16))),
        ValueView::Null | ValueView::Array(_) | ValueView::Object(_) => Err(
            bare(ErrorKind::UnsupportedValue),
        ),
    }
}

/// The term of a host value on a field of a declared type.
///
/// On a JSON field the host value is the text of a path, and the term
/// addresses that path. On any other field the host value is coerced under
/// the declared type, and the term is that of the coerced value.
pub open spec fn term_on(field: u32, t: FieldType, name: Seq<char>, h: HostView) -> Result<
    Seq<u8>,
    ErrorView,
> {
    if t == FieldType::JsonObject {
        match h {
            HostView::Str(path) => Ok(
                term_bytes(field, FieldType::JsonObject, json_path_payload(path)),
            ),
            _ => Err(about(ErrorKind::TypeMismatch(t), name)),
        }
    } else {
        match typed(h, t, name) {
            Err(e) => Err(e),
            Ok(v) => encoded(field, v),
        }
    }
}

/// The term of a host value on the field of the given name, under the type
/// that the schema declares for it.
pub open spec fn term_of(entries: Seq<FieldEntry>, name: Seq<char>, h: HostView) -> Result<
    Seq<u8>,
    ErrorView,
> {
    match position_of(entries, name) {
        None => Err(about(ErrorKind::FieldDoesNotExist, name)),
        Some(i) => term_on(i as u32, entries[i].field_type, name, h),
    }
}

/// As `term_of`, for a caller that states the type: the stated type must be
/// the declared one.
pub open spec fn term_of_type(
    entries: Seq<FieldEntry>,
    name: Seq<char>,
    stated: FieldType,
    h: HostView,
) -> Result<Seq<u8>, ErrorView> {
    match position_of(entries, name) {
        None => Err(about(ErrorKind::FieldDoesNotExist, name)),
        Some(i) => if entries[i].field_type != stated {
            Err(about(ErrorKind::TypeMismatch(entries[i].field_type), name))
        } else {
            term_on(i as u32, stated, name, h)
        },
    }
}

/// The term of a typed value on a field.
pub fn term_from_value(field: u32, value: &Value) -> (r: Result<Term, Error>)
    ensures
        term_outcome(r) == encoded(field, value@),
{
    match value {
        Value::Str(s) => Ok(Term::from_field_text(field, s.as_str())),
        Value::U64(n) => Ok(Term::from_field_u64(field, *n)),
        Value::I64(n) => Ok(Term::from_field_i64(field, *n)),
        Value::F64(bits) => Ok(Term::from_field_f64(field, *bits)),
        Value::Bool(b) => Ok(Term::from_field_bool(field, *b)),
        Value::Date(seconds) => match Term::from_field_date(field, *seconds) {
            Some(t) => Ok(t),
            None => Err(Error::bare(ErrorKind::DateOutOfRange)),
        },
        Value::Facet(f) => Ok(Term::from_facet(field, f)),
        Value::Bytes(b) => Ok(Term::from_field_bytes(field, b)),
        Value::IpAddr(a) => Ok(Term::from_field_ip_addr(field, *a)),
        Value::Null => Err(Error::bare(ErrorKind::UnsupportedValue)),
        Value::Array(_) => Err(Error::bare(ErrorKind::UnsupportedValue)),
        Value::Object(_) => Err(Error::bare(ErrorKind::UnsupportedValue)),
    }
}

/// The term of a host value on a field of a declared type.
pub fn term_on_field(field: u32, field_type: FieldType, field_name: &str, value: &HostValue) -> (r:
    Result<Term, Error>)
    ensures
        term_outcome(r) == term_on(field, field_type, field_name@, value@),
{
    if field_type == FieldType::JsonObject {
        match value {
            HostValue::Str(path) => Ok(Term::from_field_json_path(field, path.as_str())),
            _ => Err(Error::new(ErrorKind::TypeMismatch(field_type), field_name)),
        }
    } else {
        match extract_value_for_type(value, field_type, field_name) {
            Err(e) => Err(e),
            Ok(v) => term_from_value(field, &v),
        }
    }
}

/// Builds the term of a host value on the field of the given name, under
/// the type that the schema declares for the field.
pub fn make_term(schema: &Schema, field_name: &str, field_value: &HostValue) -> (r: Result<
    Term,
    Error,
>)
    ensures
        term_outcome(r) == term_of(schema.entries(), field_name@, field_value@),
{
    let field = match schema.get_field(field_name) {
        Ok(field) => field,
        Err(e) => {
            return Err(e);
        },
    };
    proof {
        lemma_position_of(schema.entries(), field_name@);
    }
    match schema.get_field_entry(field) {
        Some(entry) => term_on_field(field, entry.field_type, field_name, field_value),
        None => Err(Error::new(ErrorKind::FieldDoesNotExist, field_name)),
    }
}

/// Builds the term of a host value on the field of the given name, for a
/// caller that states the type of the field.
pub fn make_term_for_type(
    schema: &Schema,
    field_name: &str,
    field_type: FieldType,
    field_value: &HostValue,
) -> (r: Result<Term, Error>)
    ensures
        term_outcome(r) == term_of_type(schema.entries(), field_name@, field_type, field_value@),
{
    let field = match schema.get_field(field_name) {
        Ok(field) => field,
        Err(e) => {
            return Err(e);
        },
    };
    proof {
        lemma_position_of(schema.entries(), field_name@);
    }
    match schema.get_field_entry(field) {
        Some(entry) => {
            if entry.field_type != field_type {
                Err(Error::new(ErrorKind::TypeMismatch(entry.field_type), field_name))
            } else {
                term_on_field(field, field_type, field_name, field_value)
            }
        },
        None => Err(Error::new(ErrorKind::FieldDoesNotExist, field_name)),
    }
}

/// The order of terms: byte by byte, a string of bytes before every string
/// that continues it.
pub open spec fn bytes_before(a: Seq<u8>, b: Seq<u8>) -> bool
    decreases a.len(),
{
    if b.len() == 0 {
        false
    } else if a.len() == 0 {
        true
    } else if a[0] != b[0] {
        a[0] < b[0]
    } else {
        bytes_before(a.skip(1), b.skip(1))
    }
}

/// After the same bytes, the order is that of what follows.
pub proof fn lemma_order_after_prefix(prefix: Seq<u8>, a: Seq<u8>, b: Seq<u8>)
    ensures
        bytes_before(prefix + a, prefix + b) == bytes_before(a, b),
    decreases prefix.len(),
{
    if prefix.len() == 0 {
        assert(prefix + a =~= a);
        assert(prefix + b =~= b);
    } else {
        assert((prefix + a).skip(1) =~= prefix.skip(1) + a);
        assert((prefix + b).skip(1) =~= prefix.skip(1) + b);
        lemma_order_after_prefix(prefix.skip(1), a, b);
    }
}

/// Strings of bytes of the same length that are in order stay in order
/// whatever byte is put after each.
pub proof fn lemma_order_decided_before_end(p: Seq<u8>, q: Seq<u8>, a: u8, b: u8)
    requires
        p.len() == q.len(),
        bytes_before(p, q),
    ensures
        bytes_before(p.push(a), q.push(b)),
    decreases p.len(),
{
    if p.len() > 0 {
        if p[0] == q[0] {
            assert(p.push(a).skip(1) =~= p.skip(1).push(a));
            assert(q.push(b).skip(1) =~= q.skip(1).push(b));
            lemma_order_decided_before_end(p.skip(1), q.skip(1), a, b);
        }
    }
}

/// Numbers of the same width order as their bytes do, high byte first.
pub proof fn lemma_be_bytes_order(x: int, y: int, width: nat)
    requires
        0 <= x < pow256(width),
        0 <= y < pow256(width),
    ensures
        bytes_before(be_bytes(x, width), be_bytes(y, width)) == (x < y),
    decreases width,
{
    if width > 0 {
        let hx = x / 256;
        let hy = y / 256;
        let p = be_bytes(hx, (width - 1) as nat);
        let q = be_bytes(hy, (width - 1) as nat);
        let a = (x % 256) as u8;
        let b = (y % 256) as u8;
        lemma_be_bytes_len(hx, (width - 1) as nat);
        lemma_be_bytes_len(hy, (width - 1) as nat);
        lemma_be_bytes_order(hx, hy, (width - 1) as nat);
        lemma_be_bytes_order(hy, hx, (width - 1) as nat);
        assert(be_bytes(x, width) == p.push(a));
        assert(be_bytes(y, width) == q.push(b));
        if hx < hy {
            lemma_order_decided_before_end(p, q, a, b);
        } else if hy < hx {
            lemma_order_decided_before_end(q, p, b, a);
            lemma_order_one_way(q.push(b), p.push(a));
        } else {
            assert(p.push(a) =~= p + seq![a]);
            assert(q.push(b) =~= p + seq![b]);
            lemma_order_after_prefix(p, seq![a], seq![b]);
            assert(seq![a].skip(1) =~= Seq::<u8>::empty());
            assert(seq![b].skip(1) =~= Seq::<u8>::empty());
            assert(bytes_before(seq![a], seq![b]) == (a < b)) by {
                reveal_with_fuel(bytes_before, 3);
            }
        }
    } else {
        assert(x == 0 && y == 0);
    }
}

/// Of two strings of bytes, at most one is before the other.
pub proof fn lemma_order_one_way(a: Seq<u8>, b: Seq<u8>)
    requires
        bytes_before(a, b),
    ensures
        !bytes_before(b, a),
    decreases a.len(),
{
    if a.len() > 0 && b.len() > 0 && a[0] == b[0] {
        lemma_order_one_way(a.skip(1), b.skip(1));
    }
}

/// On one field, the terms of unsigned integers, of signed integers and of
/// dates order as the numbers and the dates do.
pub proof fn lemma_terms_order_as_numbers(field: u32, a: u64, b: u64, c: i64, d: i64)
    ensures
        bytes_before(
            term_bytes(field, FieldType::U64, be_bytes(a as int, 8)),
            term_bytes(field, FieldType::U64, be_bytes(b as int, 8)),
        ) == (a < b),
        bytes_before(
            term_bytes(field, FieldType::I64, be_bytes(c + SIGN_BIT, 8)),
            term_bytes(field, FieldType::I64, be_bytes(d + SIGN_BIT, 8)),
        ) == (c < d),
        in_engine_range(c) && in_engine_range(d) ==> bytes_before(
            term_bytes(field, FieldType::Date, be_bytes(c * NANOS_PER_SECOND + SIGN_BIT, 8)),
            term_bytes(field, FieldType::Date, be_bytes(d * NANOS_PER_SECOND + SIGN_BIT, 8)),
        ) == (c < d),
{
    assert(pow256(8) == 0x1_0000_0000_0000_0000) by {
        reveal_with_fuel(pow256, 9);
    }
    let head = be_bytes(field as int, 4);
    lemma_be_bytes_order(a as int, b as int, 8);
    lemma_order_after_prefix(
        head + seq![type_code(FieldType::U64)],
        be_bytes(a as int, 8),
        be_bytes(b as int, 8),
    );
    lemma_be_bytes_order(c + SIGN_BIT, d + SIGN_BIT, 8);
    lemma_order_after_prefix(
        head + seq![type_code(FieldType::I64)],
        be_bytes(c + SIGN_BIT, 8),
        be_bytes(d + SIGN_BIT, 8),
    );
    if in_engine_range(c) && in_engine_range(d) {
        lemma_be_bytes_order(c * NANOS_PER_SECOND + SIGN_BIT, d * NANOS_PER_SECOND + SIGN_BIT, 8);
        lemma_order_after_prefix(
            head + seq![type_code(FieldType::Date)],
            be_bytes(c * NANOS_PER_SECOND + SIGN_BIT, 8),
            be_bytes(d * NANOS_PER_SECOND + SIGN_BIT, 8),
        );
    }
}

} // verus!
