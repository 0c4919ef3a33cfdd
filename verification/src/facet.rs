//! Facets: points in a hierarchy, written like a file path.
//!
//! A facet is held in the engine's encoded form: the segments of its path,
//! unescaped, separated by the NUL character. The root facet `/` is the
//! empty string.

use vstd::prelude::*;
use vstd::utf8::*;

verus! {

/// The character that separates the segments of an encoded facet.
pub const SEPARATOR: char = '\0';

/// The segments joined by the separator; no segments give the root.
pub open spec fn joined(segments: Seq<Seq<char>>) -> Seq<char>
    decreases segments.len(),
{
    if segments.len() == 0 {
        Seq::empty()
    } else if segments.len() == 1 {
        segments[0]
    } else {
        joined(segments.drop_last()) + seq![SEPARATOR] + segments.last()
    }
}

/// The encoded form of a facet's text, as the engine's parser gives it for
/// a text that begins with `/`.
pub uninterp spec fn facet_text_encoding(text: Seq<char>) -> Seq<char>;

/// The text of an encoded facet, as the engine prints it.
pub uninterp spec fn facet_encoding_text(encoded: Seq<char>) -> Seq<char>;

/// Whether a text is one the engine's facet parser accepts.
pub open spec fn is_facet_text(text: Seq<char>) -> bool {
    text.len() > 0 && text[0] == '/'
}

/// `shorter` is a proper ancestor of `longer`: the root above any other
/// facet, or a facet above one that continues it with a further segment.
pub open spec fn is_strict_prefix(shorter: Seq<char>, longer: Seq<char>) -> bool {
    &&& shorter.len() < longer.len()
    &&& longer.subrange(0, shorter.len() as int) == shorter
    &&& (shorter.len() == 0 || longer[shorter.len() as int] == SEPARATOR)
}

/// A point in a hierarchy.
#[derive(Clone, Debug, PartialEq, Eq)]
pub struct Facet {
    pub encoded: String,
}

impl View for Facet {
    type V = Seq<char>;

    open spec fn view(&self) -> Seq<char> {
        self.encoded@
    }
}

/// `tantivy::schema::Facet::from_text`: fails exactly on a text that is
/// empty or does not begin with `/`; otherwise what it returns, in encoded
/// form, is a function of the text alone.
#[verifier::external_body]
fn parse_text(text: &str) -> (r: Option<String>)
    ensures
        r is Some <==> is_facet_text(text@),
        r matches Some(encoded) ==> encoded@ == facet_text_encoding(text@),
{
    match tantivy::schema::Facet::from_text(text) {
        Ok(facet) => Some(facet.encoded_str().to_string()),
        Err(_) => None,
    }
}

/// `Display` of `tantivy::schema::Facet`, on the facet with this encoded
/// form: what it prints is a function of the encoded form alone.
#[verifier::external_body]
fn print_text(encoded: &str) -> (r: String)
    ensures
        r@ == facet_encoding_text(encoded@),
{
    tantivy::schema::Facet::from_encoded(encoded.as_bytes().to_vec()).unwrap_or_default().to_string()
}

/// `tantivy::schema::Facet::root`: the facet whose encoded form is empty.
#[verifier::external_body]
fn root_encoded() -> (r: String)
    ensures
        r@ == Seq::<char>::empty(),
{
    tantivy::schema::Facet::root().encoded_str().to_string()
}

/// `tantivy::schema::Facet::from_encoded`: succeeds exactly on bytes that
/// are UTF-8, with the text they encode.
#[verifier::external_body]
fn decode_encoded(bytes: Vec<u8>) -> (r: Option<String>)
    ensures
        r is Some <==> valid_utf8(bytes@),
        r matches Some(encoded) ==> encoded@ == decode_utf8(bytes@),
{
    match tantivy::schema::Facet::from_encoded(bytes) {
        Ok(facet) => Some(facet.encoded_str().to_string()),
        Err(_) => None,
    }
}

/// `tantivy::schema::Facet::from_path`: the steps joined by the separator.
#[verifier::external_body]
fn join_path(path: &Vec<String>) -> (r: String)
    ensures
        r@ == joined(Seq::new(path@.len(), |i: int| path@[i]@)),
{
    tantivy::schema::Facet::from_path(path.iter()).encoded_str().to_string()
}

/// `tantivy::schema::Facet::to_path`: the encoded form split at every
/// separator, so that there is at least one segment, no segment holds a
/// separator, and the segments joined give the encoded form back.
#[verifier::external_body]
fn split_path(encoded: &str) -> (r: Vec<String>)
    ensures
        r@.len() >= 1,
        forall|i: int| 0 <= i < r@.len() ==> !(#[trigger] r@[i]@).contains(SEPARATOR),
        joined(Seq::new(r@.len(), |i: int| r@[i]@)) == encoded@,
{
    let facet = tantivy::schema::Facet::from_encoded(encoded.as_bytes().to_vec()).unwrap_or_default();
    facet.to_path().into_iter().map(|s| s.to_string()).collect()
}

/// `tantivy::schema::Facet::is_root`.
#[verifier::external_body]
fn encoded_is_root(encoded: &str) -> (r: bool)
    ensures
        r == (encoded@.len() == 0),
{
    tantivy::schema::Facet::from_encoded(encoded.as_bytes().to_vec()).unwrap_or_default().is_root()
}

/// `tantivy::schema::Facet::is_prefix_of`, which is strict: no facet is a
/// prefix of itself.
#[verifier::external_body]
fn encoded_is_prefix_of(shorter: &str, longer: &str) -> (r: bool)
    ensures
        r == is_strict_prefix(shorter@, longer@),
{
    let a = tantivy::schema::Facet::from_encoded(shorter.as_bytes().to_vec()).unwrap_or_default();
    let b = tantivy::schema::Facet::from_encoded(longer.as_bytes().to_vec()).unwrap_or_default();
    a.is_prefix_of(&b)
}

impl Facet {
    /// The facet with the given binary representation, if that is UTF-8.
    pub fn from_encoded(encoded_bytes: Vec<u8>) -> (r: Option<Facet>)
        ensures
            r is Some <==> valid_utf8(encoded_bytes@),
            r matches Some(f) ==> f@ == decode_utf8(encoded_bytes@),
    {
        match decode_encoded(encoded_bytes) {
            Some(encoded) => Some(Facet { encoded }),
            None => None,
        }
    }

    /// The root facet, `/`.
    pub fn root() -> (f: Facet)
        ensures
            f@ == Seq::<char>::empty(),
    {
        Facet { encoded: root_encoded() }
    }

    /// Whether this is the root facet.
    pub fn is_root(&self) -> (r: bool)
        ensures
            r == (self@.len() == 0),
    {
        encoded_is_root(self.encoded.as_str())
    }

    /// Whether `other` lies strictly below this facet.
    pub fn is_prefix_of(&self, other: &Facet) -> (r: bool)
        ensures
            r == is_strict_prefix(self@, other@),
    {
        encoded_is_prefix_of(self.encoded.as_str(), other.encoded.as_str())
    }

    /// The facet that a text stands for, if the text begins with `/`.
    pub fn from_text(text: &str) -> (r: Option<Facet>)
        ensures
            r is Some <==> is_facet_text(text@),
            r matches Some(f) ==> f@ == facet_text_encoding(text@),
    {
        match parse_text(text) {
            Some(encoded) => Some(Facet { encoded }),
            None => None,
        }
    }

    /// The facet that a text stands for.
    pub fn from_string(facet_string: &str) -> (f: Facet)
        requires
            is_facet_text(facet_string@),
        ensures
            f@ == facet_text_encoding(facet_string@),
    {
        match parse_text(facet_string) {
            Some(encoded) => Facet { encoded },
            None => Facet { encoded: root_encoded() },
        }
    }

    /// The facet with the given path segments.
    pub fn from_path(path: &Vec<String>) -> (f: Facet)
        ensures
            f@ == joined(Seq::new(path@.len(), |i: int| path@[i]@)),
    {
        Facet { encoded: join_path(path) }
    }

    /// The segments of the facet's path; the root has the one segment `""`.
    pub fn to_path(&self) -> (r: Vec<String>)
        ensures
            r@.len() >= 1,
            forall|i: int| 0 <= i < r@.len() ==> !(#[trigger] r@[i]@).contains(SEPARATOR),
            joined(Seq::new(r@.len(), |i: int| r@[i]@)) == self@,
    {
        split_path(self.encoded.as_str())
    }

    /// The facet as text.
    pub fn to_path_str(&self) -> (r: String)
        ensures
            r@ == facet_encoding_text(self@),
    {
        print_text(self.encoded.as_str())
    }

    /// The facet as text.
    pub fn to_string(&self) -> (r: String)
        ensures
            r@ == facet_encoding_text(self@),
    {
        print_text(self.encoded.as_str())
    }

    /// A copy of the facet.
    pub fn duplicate(&self) -> (f: Facet)
        ensures
            f@ == self@,
    {
        Facet { encoded: self.encoded.clone() }
    }
}

} // verus!
