//! IP addresses.
//!
//! An address is the 128-bit number of its IPv6 form; an IPv4 address is
//! held as the IPv4-mapped IPv6 address `::ffff:a.b.c.d`, and is written in
//! dotted form again when it is shown.

use vstd::prelude::*;

verus! {

/// The first address of the IPv4-mapped range, `::ffff:0.0.0.0`.
pub const MAPPED_BASE: u128 = 0xffff_0000_0000;

/// The last address of the IPv4-mapped range, `::ffff:255.255.255.255`.
pub const MAPPED_LAST: u128 = 0xffff_ffff_ffff;

/// The character of a decimal digit.
pub open spec fn digit(d: int) -> char {
    if d == 0 {
        '0'
    } else if d == 1 {
        '1'
    } else if d == 2 {
        '2'
    } else if d == 3 {
        '3'
    } else if d == 4 {
        '4'
    } else if d == 5 {
        '5'
    } else if d == 6 {
        '6'
    } else if d == 7 {
        '7'
    } else if d == 8 {
        '8'
    } else {
        '9'
    }
}

/// A number below 1000 in decimal, without leading zeros.
pub open spec fn decimal(n: int) -> Seq<char> {
    if n < 10 {
        seq![digit(n)]
    } else if n < 100 {
        seq![digit(n / 10), digit(n % 10)]
    } else {
        seq![digit(n / 100), digit((n / 10) % 10), digit(n % 10)]
    }
}

/// An IPv4 address as text: its four bytes in decimal, high byte first,
/// with dots between them.
pub open spec fn dotted_quad(v: u32) -> Seq<char> {
    decimal(v as int / 0x100_0000) + seq!['.'] + decimal((v as int / 0x1_0000) % 256) + seq!['.']
        + decimal((v as int / 0x100) % 256) + seq!['.'] + decimal(v as int % 256)
}

/// The IPv4-mapped IPv6 address of an IPv4 address: `::ffff:a.b.c.d`.
pub open spec fn mapped(v: u32) -> u128 {
    (MAPPED_BASE + v) as u128
}

/// Whether an address is an IPv4-mapped one.
pub open spec fn is_mapped(address: u128) -> bool {
    MAPPED_BASE <= address <= MAPPED_LAST
}

/// The IPv4 address of an IPv4-mapped address.
pub open spec fn unmapped(address: u128) -> u32 {
    (address - MAPPED_BASE) as u32
}

/// The address that the engine reads from a text, or `None` for a text
/// that is no IP address to it.
pub uninterp spec fn ip_text_address(text: Seq<char>) -> Option<u128>;

/// The text of an address as the engine writes it.
pub uninterp spec fn ip_address_text(address: u128) -> Seq<char>;

/// Whether a text is an IPv4 address in dotted form.
pub open spec fn is_dotted(text: Seq<char>) -> bool {
    exists|v: u32| text == #[trigger] dotted_quad(v)
}

/// The IPv4 address that a text in dotted form is the text of.
pub open spec fn dotted_value(text: Seq<char>) -> u32 {
    choose|v: u32| text == #[trigger] dotted_quad(v)
}

/// The address that a text denotes: an IPv4 address in dotted form
/// denotes its IPv4-mapped address; what any other text denotes is for the
/// engine to say.
pub open spec fn denoted_address(text: Seq<char>) -> Option<u128> {
    if is_dotted(text) {
        Some(mapped(dotted_value(text)))
    } else {
        ip_text_address(text)
    }
}

/// What reading a text gave is right for IPv4: if the text is an IPv4
/// address in dotted form, what was read is its IPv4-mapped address.
pub open spec fn reads_dotted(text: Seq<char>, read: Option<u128>) -> bool {
    forall|v: u32| text == #[trigger] dotted_quad(v) ==> read == Some(mapped(v))
}

/// The text of an address: dotted for an IPv4-mapped address, the IPv6
/// form for any other.
pub open spec fn shown_address(address: u128) -> Seq<char> {
    if is_mapped(address) {
        dotted_quad(unmapped(address))
    } else {
        ip_address_text(address)
    }
}

/// `tantivy::schema::FieldType::value_from_json` on an IP address field and
/// a JSON string: an IPv4 address in dotted form is read as its
/// IPv4-mapped IPv6 address; what is read from any other text is a
/// function of the text alone.
#[verifier::external_body]
fn parse_address(text: &str) -> (r: Option<u128>)
    ensures
        reads_dotted(text@, r),
        !is_dotted(text@) ==> r == ip_text_address(text@),
{
    let field_type = tantivy::schema::FieldType::IpAddr(tantivy::schema::IpAddrOptions::default());
    match field_type.value_from_json(serde_json::Value::String(text.to_string())) {
        Ok(tantivy::schema::OwnedValue::IpAddr(address)) => Some(u128::from(address)),
        _ => None,
    }
}

/// `Serialize` of `tantivy::schema::OwnedValue` on an IP address: an
/// IPv4-mapped address is written as the IPv4 address in dotted form; what
/// is written of any other address is a function of the address alone.
#[verifier::external_body]
fn print_address(address: u128) -> (r: String)
    ensures
        is_mapped(address) ==> r@ == dotted_quad(unmapped(address)),
        !is_mapped(address) ==> r@ == ip_address_text(address),
{
    match serde_json::to_value(tantivy::schema::OwnedValue::IpAddr(address.into())) {
        Ok(serde_json::Value::String(text)) => text,
        _ => String::new(),
    }
}

/// The address that a text denotes.
pub fn parse(text: &str) -> (r: Option<u128>)
    ensures
        r == denoted_address(text@),
{
    parse_address(text)
}

/// The text of an address.
pub fn print(address: u128) -> (r: String)
    ensures
        r@ == shown_address(address),
{
    print_address(address)
}

/// A byte in decimal is one to three characters, none of them a dot.
pub proof fn lemma_decimal_has_no_dot(n: int)
    requires
        0 <= n < 256,
    ensures
        1 <= decimal(n).len() <= 3,
        forall|i: int| 0 <= i < decimal(n).len() ==> decimal(n)[i] != '.',
{
}

/// Bytes that are the same in decimal are the same.
pub proof fn lemma_decimal_is_one_to_one(a: int, b: int)
    requires
        0 <= a < 256,
        0 <= b < 256,
        decimal(a) == decimal(b),
    ensures
        a == b,
{
    let x = decimal(a);
    let y = decimal(b);
    assert(x.len() == y.len());
    assert(x[0] == y[0]);
    if a >= 10 {
        assert(x[1] == y[1]);
    }
    if a >= 100 {
        assert(x[2] == y[2]);
    }
}

/// Two texts that begin with a byte in decimal and a dot, and are the
/// same, begin with the same byte and go on in the same way.
pub proof fn lemma_same_first_byte(a: int, b: int, rest_a: Seq<char>, rest_b: Seq<char>)
    requires
        0 <= a < 256,
        0 <= b < 256,
        decimal(a) + seq!['.'] + rest_a == decimal(b) + seq!['.'] + rest_b,
    ensures
        a == b,
        rest_a == rest_b,
{
    let x = decimal(a);
    let y = decimal(b);
    let s = x + seq!['.'] + rest_a;
    let t = y + seq!['.'] + rest_b;
    lemma_decimal_has_no_dot(a);
    lemma_decimal_has_no_dot(b);
    assert(s[x.len() as int] == '.');
    assert(t[y.len() as int] == '.');
    if x.len() < y.len() {
        assert(t[x.len() as int] == y[x.len() as int]);
    } else if y.len() < x.len() {
        assert(s[y.len() as int] == x[y.len() as int]);
    }
    assert(x.len() == y.len());
    assert forall|i: int| 0 <= i < x.len() implies x[i] == y[i] by {
        assert(s[i] == x[i]);
        assert(t[i] == y[i]);
    }
    assert(x =~= y);
    lemma_decimal_is_one_to_one(a, b);
    assert(rest_a =~= s.skip(x.len() as int + 1));
    assert(rest_b =~= t.skip(y.len() as int + 1));
}

/// Four texts with dots between them, grouped from the end.
pub proof fn lemma_grouped(a: Seq<char>, b: Seq<char>, c: Seq<char>, d: Seq<char>)
    ensures
        a + seq!['.'] + b + seq!['.'] + c + seq!['.'] + d == a + seq!['.'] + (b + seq!['.'] + (c
            + seq!['.'] + d)),
{
    assert(a + seq!['.'] + b + seq!['.'] + c + seq!['.'] + d =~= a + seq!['.'] + (b + seq!['.']
        + (c + seq!['.'] + d)));
}

/// Four bytes in decimal with dots between them are the same text only if
/// they are the same bytes.
pub proof fn lemma_same_bytes(a: Seq<int>, b: Seq<int>)
    requires
        a.len() == 4,
        b.len() == 4,
        forall|i: int| 0 <= i < 4 ==> 0 <= #[trigger] a[i] < 256,
        forall|i: int| 0 <= i < 4 ==> 0 <= #[trigger] b[i] < 256,
        decimal(a[0]) + seq!['.'] + decimal(a[1]) + seq!['.'] + decimal(a[2]) + seq!['.']
            + decimal(a[3]) == decimal(b[0]) + seq!['.'] + decimal(b[1]) + seq!['.'] + decimal(
            b[2],
        ) + seq!['.'] + decimal(b[3]),
    ensures
        a == b,
{
    let dot = seq!['.'];
    let tail_a2 = decimal(a[2]) + dot + decimal(a[3]);
    let tail_b2 = decimal(b[2]) + dot + decimal(b[3]);
    let tail_a1 = decimal(a[1]) + dot + tail_a2;
    let tail_b1 = decimal(b[1]) + dot + tail_b2;
    lemma_grouped(decimal(a[0]), decimal(a[1]), decimal(a[2]), decimal(a[3]));
    lemma_grouped(decimal(b[0]), decimal(b[1]), decimal(b[2]), decimal(b[3]));
    lemma_same_first_byte(a[0], b[0], tail_a1, tail_b1);
    lemma_same_first_byte(a[1], b[1], tail_a2, tail_b2);
    lemma_same_first_byte(a[2], b[2], decimal(a[3]), decimal(b[3]));
    lemma_decimal_is_one_to_one(a[3], b[3]);
    assert(a =~= b);
}

/// The four bytes of an IPv4 address, high byte first.
pub open spec fn quad_bytes(v: u32) -> Seq<int> {
    seq![
        v as int / 0x100_0000,
        (v as int / 0x1_0000) % 256,
        (v as int / 0x100) % 256,
        v as int % 256,
    ]
}

/// IPv4 addresses that are the same in dotted form are the same.
pub proof fn lemma_dotted_quad_is_one_to_one(v: u32, w: u32)
    requires
        dotted_quad(v) == dotted_quad(w),
    ensures
        v == w,
{
    let a = quad_bytes(v);
    let b = quad_bytes(w);
    lemma_same_bytes(a, b);
    assert(a[0] == b[0] && a[1] == b[1] && a[2] == b[2] && a[3] == b[3]);
    assert(v == w) by {
        lemma_bytes_make_the_address(v);
        lemma_bytes_make_the_address(w);
    }
}

/// An IPv4 address is made of its four bytes.
pub proof fn lemma_bytes_make_the_address(v: u32)
    ensures
        v == quad_bytes(v)[0] * 0x100_0000 + quad_bytes(v)[1] * 0x1_0000 + quad_bytes(v)[2]
            * 0x100 + quad_bytes(v)[3],
{
    let x = v as int;
    let q1 = x / 0x100;
    let q2 = q1 / 0x100;
    let q3 = q2 / 0x100;
    vstd::arithmetic::div_mod::lemma_div_denominator(x, 0x100, 0x100);
    vstd::arithmetic::div_mod::lemma_div_denominator(x, 0x1_0000, 0x100);
    assert(q2 == x / 0x1_0000);
    assert(q3 == x / 0x100_0000);
    assert(x == 0x100 * q1 + x % 0x100);
    assert(q1 == 0x100 * q2 + q1 % 0x100);
    assert(q2 == 0x100 * q3 + q2 % 0x100);
}

/// An IPv4 address in dotted form denotes its IPv4-mapped address, and
/// that address is shown in the same dotted form again.
pub proof fn lemma_ipv4_round_trip(v: u32)
    ensures
        denoted_address(dotted_quad(v)) == Some(mapped(v)),
        is_mapped(mapped(v)),
        shown_address(mapped(v)) == dotted_quad(v),
{
    let text = dotted_quad(v);
    assert(is_dotted(text));
    lemma_dotted_quad_is_one_to_one(dotted_value(text), v);
}

} // verus!
