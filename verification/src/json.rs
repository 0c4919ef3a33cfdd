//! The JSON-compatible form in which values are shown to the host and put
//! on the wire.

use crate::number::{is_finite, TWO_52};
use vstd::prelude::*;

verus! {

/// A JSON value. A number is an unsigned integer, a signed integer, or a
/// float held by its bit pattern; an object keeps its entries in order.
///
/// JSON text has one form for each number: an integer that is 0 or above
/// has no sign, and an infinity or a NaN cannot be written. `Json::integer`
/// makes an integer in that one form, and `carried` says what JSON text
/// carries of any value.
#[derive(Debug, PartialEq, Eq)]
pub enum Json {
    Null,
    Bool(bool),
    Unsigned(u64),
    Signed(i64),
    Float(u64),
    Str(String),
    Array(Vec<Json>),
    Object(Vec<(String, Json)>),
}

/// What a `Json` stands for.
pub enum JsonView {
    Null,
    Bool(bool),
    Unsigned(u64),
    Signed(i64),
    Float(u64),
    Str(Seq<char>),
    Array(Seq<JsonView>),
    Object(Seq<(Seq<char>, JsonView)>),
}

/// What a JSON value stands for.
pub open spec fn json_view_of(j: Json) -> JsonView
    decreases j,
{
    match j {
        Json::Null => JsonView::Null,
        Json::Bool(b) => JsonView::Bool(b),
        Json::Unsigned(n) => JsonView::Unsigned(n),
        Json::Signed(n) => JsonView::Signed(n),
        Json::Float(bits) => JsonView::Float(bits),
        Json::Str(s) => JsonView::Str(s@),
        Json::Array(items) => JsonView::Array(
            Seq::new(
                items@.len(),
                |i: int|
                    if 0 <= i < items@.len() {
                        json_view_of(items@[i])
                    } else {
                        JsonView::Null
                    },
            ),
        ),
        Json::Object(entries) => JsonView::Object(
            Seq::new(
                entries@.len(),
                |i: int|
                    if 0 <= i < entries@.len() {
                        (entries@[i].0@, json_view_of(entries@[i].1))
                    } else {
                        (Seq::empty(), JsonView::Null)
                    },
            ),
        ),
    }
}

impl View for Json {
    type V = JsonView;

    open spec fn view(&self) -> JsonView {
        json_view_of(*self)
    }
}

/// An integer in the one form that JSON text has for it: unsigned if it is
/// 0 or above, signed if it is negative.
pub open spec fn integer(n: i64) -> JsonView {
    if n >= 0 {
        JsonView::Unsigned(n as u64)
    } else {
        JsonView::Signed(n)
    }
}

/// What JSON text carries of a value: an integer that is 0 or above comes
/// back unsigned, whatever it was written as; a float that is an infinity
/// or a NaN comes back as a null; everything else comes back as it is.
pub open spec fn carried(j: JsonView) -> JsonView
    decreases j,
{
    match j {
        JsonView::Signed(n) => integer(n),
        JsonView::Float(bits) => if is_finite(bits) {
            j
        } else {
            JsonView::Null
        },
        JsonView::Array(items) => JsonView::Array(
            Seq::new(
                items.len(),
                |i: int|
                    if 0 <= i < items.len() {
                        carried(items[i])
                    } else {
                        JsonView::Null
                    },
            ),
        ),
        JsonView::Object(entries) => JsonView::Object(
            Seq::new(
                entries.len(),
                |i: int|
                    if 0 <= i < entries.len() {
                        (entries[i].0, carried(entries[i].1))
                    } else {
                        (Seq::empty(), JsonView::Null)
                    },
            ),
        ),
        _ => j,
    }
}

/// The views of a list of JSON values.
pub open spec fn json_views(items: Seq<Json>) -> Seq<JsonView> {
    Seq::new(items.len(), |i: int| items[i]@)
}

/// The views of a list of keyed JSON values.
pub open spec fn json_entry_views(entries: Seq<(String, Json)>) -> Seq<(Seq<char>, JsonView)> {
    Seq::new(entries.len(), |i: int| (entries[i].0@, entries[i].1@))
}

/// An array is the views of its items.
pub proof fn lemma_json_array_view(items: Vec<Json>)
    ensures
        Json::Array(items)@ == JsonView::Array(json_views(items@)),
{
    let v = Json::Array(items);
    assert(v@ is Array);
    assert(v@->Array_0.len() == items@.len());
    assert(forall|j: int| 0 <= j < items@.len() ==> v@->Array_0[j] == items@[j]@);
    assert(v@->Array_0 =~= json_views(items@));
}

/// An object is the views of its entries.
pub proof fn lemma_json_object_view(entries: Vec<(String, Json)>)
    ensures
        Json::Object(entries)@ == JsonView::Object(json_entry_views(entries@)),
{
    let v = Json::Object(entries);
    assert(v@ is Object);
    assert(v@->Object_0.len() == entries@.len());
    assert(forall|j: int|
        0 <= j < entries@.len() ==> v@->Object_0[j] == (entries@[j].0@, entries@[j].1@));
    assert(v@->Object_0 =~= json_entry_views(entries@));
}

/// Whether a float, given by its bit pattern, is neither an infinity nor a
/// NaN.
pub fn float_is_finite(bits: u64) -> (r: bool)
    ensures
        r == is_finite(bits),
{
    (bits / TWO_52) % 2048 != 2047
}

impl Json {
    /// An integer in the one form that JSON text has for it.
    pub fn integer(n: i64) -> (r: Json)
        ensures
            r@ == integer(n),
    {
        if n >= 0 {
            Json::Unsigned(n as u64)
        } else {
            Json::Signed(n)
        }
    }

    /// What JSON text carries of the value.
    #[verifier::loop_isolation(false)]
    pub fn carry(&self) -> (r: Json)
        ensures
            r@ == carried(self@),
        decreases self,
    {
        match self {
            Json::Null => Json::Null,
            Json::Bool(b) => Json::Bool(*b),
            Json::Unsigned(n) => Json::Unsigned(*n),
            Json::Signed(n) => Json::integer(*n),
            Json::Float(bits) => if float_is_finite(*bits) {
                Json::Float(*bits)
            } else {
                Json::Null
            },
            Json::Str(s) => Json::Str(s.clone()),
            Json::Array(items) => {
                let mut out: Vec<Json> = Vec::new();
                let mut i: usize = 0;
                while i < items.len()
                    invariant
                        i <= items.len(),
                        out@.len() == i,
                        forall|j: int| 0 <= j < i ==> out@[j]@ == carried(items@[j]@),
                    decreases items.len() - i,
                {
                    let c = items[i].carry();
                    out.push(c);
                    i += 1;
                }
                proof {
                    lemma_json_array_view(out);
                    lemma_json_array_view(*items);
                    assert(json_views(out@) =~= carried(self@)->Array_0);
                }
                Json::Array(out)
            },
            Json::Object(entries) => {
                let mut out: Vec<(String, Json)> = Vec::new();
                let mut i: usize = 0;
                while i < entries.len()
                    invariant
                        i <= entries.len(),
                        out@.len() == i,
                        forall|j: int|
                            0 <= j < i ==> (#[trigger] out@[j]).0@ == entries@[j].0@ && out@[j].1@
                                == carried(entries@[j].1@),
                    decreases entries.len() - i,
                {
                    let c = entries[i].1.carry();
                    out.push((entries[i].0.clone(), c));
                    i += 1;
                }
                proof {
                    lemma_json_object_view(out);
                    lemma_json_object_view(*entries);
                    assert(json_entry_views(out@) =~= carried(self@)->Object_0);
                }
                Json::Object(out)
            },
        }
    }

    /// A deep copy.
    #[verifier::loop_isolation(false)]
    pub fn duplicate(&self) -> (r: Json)
        ensures
            r@ == self@,
        decreases self,
    {
        match self {
            Json::Null => Json::Null,
            Json::Bool(b) => Json::Bool(*b),
            Json::Unsigned(n) => Json::Unsigned(*n),
            Json::Signed(n) => Json::Signed(*n),
            Json::Float(bits) => Json::Float(*bits),
            Json::Str(s) => Json::Str(s.clone()),
            Json::Array(items) => {
                let mut out: Vec<Json> = Vec::new();
                let mut i: usize = 0;
                while i < items.len()
                    invariant
                        i <= items.len(),
                        out@.len() == i,
                        forall|j: int| 0 <= j < i ==> out@[j]@ == items@[j]@,
                    decreases items.len() - i,
                {
                    let c = items[i].duplicate();
                    out.push(c);
                    i += 1;
                }
                proof {
                    lemma_json_array_view(out);
                    lemma_json_array_view(*items);
                    assert(json_views(out@) =~= json_views(items@));
                }
                Json::Array(out)
            },
            Json::Object(entries) => {
                let mut out: Vec<(String, Json)> = Vec::new();
                let mut i: usize = 0;
                while i < entries.len()
                    invariant
                        i <= entries.len(),
                        out@.len() == i,
                        forall|j: int|
                            0 <= j < i ==> (#[trigger] out@[j]).0@ == entries@[j].0@ && out@[j].1@
                                == entries@[j].1@,
                    decreases entries.len() - i,
                {
                    let c = entries[i].1.duplicate();
                    out.push((entries[i].0.clone(), c));
                    i += 1;
                }
                proof {
                    lemma_json_object_view(out);
                    lemma_json_object_view(*entries);
                    assert(json_entry_views(out@) =~= json_entry_views(entries@));
                }
                Json::Object(out)
            },
        }
    }
}

impl Clone for Json {
    fn clone(&self) -> (r: Json)
        ensures
            r@ == self@,
    {
        self.duplicate()
    }
}

} // verus!
