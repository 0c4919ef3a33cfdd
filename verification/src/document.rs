//! Documents: a mapping from field names to lists of values.
//!
//! A document keeps its fields in the order of their names. A field that
//! has no value is not in the document: no field has an empty list.

use crate::coerce::{
    extract_value_for_type, extract_value_single_or_list, extract_value_single_or_list_for_type,
    typed, typed_list, untyped_list,
};
use crate::date::{millis_to_seconds, millis_to_seconds_spec};
use crate::error::{about, bare, Error, ErrorKind, ErrorView};
use crate::facet::Facet;
use crate::host::{
    host_entry_views, lemma_host_object_view, HostValue, HostView,
};
use crate::ip::denoted_address;
use crate::json::{
    carried, json_entry_views, json_views, lemma_json_array_view, lemma_json_object_view, Json,
    JsonView,
};
use crate::render::{nested_rendering, rendering, value_to_js, value_to_serde_json};
use crate::schema::{lemma_position_of, position_of, FieldEntry, FieldType, Schema};
use crate::text::{
    lemma_text_order_irreflexive, lemma_text_order_total, lemma_text_order_transitive,
    order_texts, text_before, TextOrder,
};
use crate::value::{copy_bytes, views, Value, ValueView};
use crate::wire::{
    from_wire, lemma_array_is_carried, lemma_items_round_trip, lemma_wire_is_carried, to_wire,
    unwire_items, wire,
};
use vstd::prelude::*;

verus! {

/// The names are in order, each once.
pub open spec fn sorted(d: Seq<(Seq<char>, Seq<ValueView>)>) -> bool {
    forall|i: int, j: int| 0 <= i < j < d.len() ==> text_before(#[trigger] d[i].0, #[trigger] d[j].0)
}

/// The names are in order, each once, and no field has an empty list.
pub open spec fn well_formed(d: Seq<(Seq<char>, Seq<ValueView>)>) -> bool {
    &&& sorted(d)
    &&& forall|i: int| 0 <= i < d.len() ==> (#[trigger] d[i]).1.len() > 0
}

/// The number of fields whose name is before the given name: the place of
/// the field of that name, whether it is in the document or not.
pub open spec fn rank(d: Seq<(Seq<char>, Seq<ValueView>)>, name: Seq<char>) -> int
    decreases d.len(),
{
    if d.len() == 0 {
        0
    } else if text_before(d.last().0, name) {
        d.len() as int
    } else {
        rank(d.drop_last(), name)
    }
}

/// Whether the document has a field of the given name.
pub open spec fn holds(d: Seq<(Seq<char>, Seq<ValueView>)>, name: Seq<char>) -> bool {
    rank(d, name) < d.len() && d[rank(d, name)].0 == name
}

/// The values of the field of the given name; none if the document has no
/// such field.
pub open spec fn values_of(d: Seq<(Seq<char>, Seq<ValueView>)>, name: Seq<char>) -> Seq<
    ValueView,
> {
    if holds(d, name) {
        d[rank(d, name)].1
    } else {
        Seq::empty()
    }
}

/// The document with a value added to a field: after the values that the
/// field has, or as the first value of a field that the document gets at
/// its place.
pub open spec fn with_value(d: Seq<(Seq<char>, Seq<ValueView>)>, name: Seq<char>, v: ValueView)
    -> Seq<(Seq<char>, Seq<ValueView>)> {
    let r = rank(d, name);
    if holds(d, name) {
        d.update(r, (name, d[r].1.push(v)))
    } else {
        d.insert(r, (name, seq![v]))
    }
}

/// The document with the list of a field set: the field has the list and
/// no other value; with an empty list the field is not in the document.
pub open spec fn with_list(
    d: Seq<(Seq<char>, Seq<ValueView>)>,
    name: Seq<char>,
    values: Seq<ValueView>,
) -> Seq<(Seq<char>, Seq<ValueView>)> {
    let r = rank(d, name);
    if holds(d, name) {
        if values.len() > 0 {
            d.update(r, (name, values))
        } else {
            d.remove(r)
        }
    } else {
        if values.len() > 0 {
            d.insert(r, (name, values))
        } else {
            d
        }
    }
}

/// What adding a value to a field does, field by field: the field has the
/// value after the values that it had, every other field has what it had,
/// and the document is well formed.
pub open spec fn appended(
    before: Seq<(Seq<char>, Seq<ValueView>)>,
    after: Seq<(Seq<char>, Seq<ValueView>)>,
    name: Seq<char>,
    v: ValueView,
) -> bool {
    &&& well_formed(after)
    &&& values_of(after, name) == values_of(before, name).push(v)
    &&& forall|other: Seq<char>|
        other != name ==> #[trigger] values_of(after, other) == values_of(before, other)
    &&& after.len() == if values_of(before, name).len() > 0 {
        before.len()
    } else {
        before.len() + 1
    }
}

/// Adding a value does to every field what `appended` says.
pub proof fn lemma_appended(d: Seq<(Seq<char>, Seq<ValueView>)>, name: Seq<char>, v: ValueView)
    requires
        well_formed(d),
    ensures
        appended(d, with_value(d, name, v), name, v),
{
    lemma_with_value(d, name, v, name);
    lemma_rank(d, name);
    assert forall|other: Seq<char>| other != name implies #[trigger] values_of(
        with_value(d, name, v),
        other,
    ) == values_of(d, other) by {
        lemma_with_value(d, name, v, other);
    }
}

/// In a document whose names are in order, the rank of a name parts the
/// fields: those before it are before the name, those from it on are not.
pub proof fn lemma_rank(d: Seq<(Seq<char>, Seq<ValueView>)>, name: Seq<char>)
    requires
        sorted(d),
    ensures
        0 <= rank(d, name) <= d.len(),
        forall|j: int| 0 <= j < rank(d, name) ==> text_before(#[trigger] d[j].0, name),
        forall|j: int| rank(d, name) <= j < d.len() ==> !text_before(#[trigger] d[j].0, name),
    decreases d.len(),
{
    if d.len() > 0 {
        let front = d.drop_last();
        assert(sorted(front)) by {
            assert forall|i: int, j: int| 0 <= i < j < front.len() implies text_before(
                #[trigger] front[i].0,
                #[trigger] front[j].0,
            ) by {
                assert(text_before(d[i].0, d[j].0));
            }
        }
        lemma_rank(front, name);
        if text_before(d.last().0, name) {
            assert forall|j: int| 0 <= j < d.len() implies text_before(
                #[trigger] d[j].0,
                name,
            ) by {
                if j < d.len() - 1 {
                    assert(text_before(d[j].0, d[d.len() - 1].0));
                    lemma_text_order_transitive(d[j].0, d.last().0, name);
                }
            }
        } else {
            assert forall|j: int| rank(d, name) <= j < d.len() implies !text_before(
                #[trigger] d[j].0,
                name,
            ) by {
                if j < d.len() - 1 {
                    assert(front[j] == d[j]);
                }
            }
            assert forall|j: int| 0 <= j < rank(d, name) implies text_before(
                #[trigger] d[j].0,
                name,
            ) by {
                assert(front[j] == d[j]);
            }
        }
    }
}

/// The rank of a name is the one place that parts the fields so.
pub proof fn lemma_rank_is(d: Seq<(Seq<char>, Seq<ValueView>)>, name: Seq<char>, r: int)
    requires
        sorted(d),
        0 <= r <= d.len(),
        forall|j: int| 0 <= j < r ==> text_before(#[trigger] d[j].0, name),
        r < d.len() ==> !text_before(d[r].0, name),
    ensures
        rank(d, name) == r,
{
    lemma_rank(d, name);
    let k = rank(d, name);
    if k < r {
        assert(text_before(d[k].0, name));
    } else if k > r {
        assert(text_before(d[k - 1].0, name));
        if r < k - 1 {
            assert(text_before(d[r].0, d[k - 1].0));
        }
        if r < k - 1 {
            lemma_text_order_transitive(d[r].0, d[k - 1].0, name);
        }
    }
}

/// A document has a field of a name exactly if the name is the name of
/// one of its fields.
pub proof fn lemma_holds(d: Seq<(Seq<char>, Seq<ValueView>)>, name: Seq<char>)
    requires
        sorted(d),
    ensures
        holds(d, name) <==> exists|j: int| 0 <= j < d.len() && #[trigger] d[j].0 == name,
        forall|j: int| 0 <= j < d.len() && #[trigger] d[j].0 == name ==> j == rank(d, name),
{
    lemma_rank(d, name);
    let r = rank(d, name);
    assert forall|j: int| 0 <= j < d.len() && #[trigger] d[j].0 == name implies j == r by {
        lemma_text_order_irreflexive(name);
        if j < r {
            assert(text_before(d[j].0, name));
        } else if j > r {
            assert(text_before(d[r].0, d[j].0));
            assert(!text_before(d[r].0, name));
        }
    }
}

/// Adding a value keeps the document well formed; the field has the value
/// after the values it had, and every other field has what it had.
pub proof fn lemma_with_value(
    d: Seq<(Seq<char>, Seq<ValueView>)>,
    name: Seq<char>,
    v: ValueView,
    other: Seq<char>,
)
    requires
        well_formed(d),
    ensures
        well_formed(with_value(d, name, v)),
        values_of(with_value(d, name, v), name) == values_of(d, name).push(v),
        other != name ==> values_of(with_value(d, name, v), other) == values_of(d, other),
        with_value(d, name, v).len() == if holds(d, name) {
            d.len()
        } else {
            d.len() + 1
        },
{
    let r = rank(d, name);
    let w = with_value(d, name, v);
    lemma_rank(d, name);
    lemma_placed(d, name, w[r].1);
    assert(w =~= with_list(d, name, w[r].1));
    lemma_with_list(d, name, w[r].1, other);
    if holds(d, name) {
    } else {
        assert(values_of(d, name).push(v) =~= seq![v]);
    }
}

/// A document with a field set at the rank of its name, the other fields
/// kept, has its names in order.
pub proof fn lemma_placed(d: Seq<(Seq<char>, Seq<ValueView>)>, name: Seq<char>, values: Seq<ValueView>)
    requires
        sorted(d),
    ensures
        holds(d, name) ==> sorted(d.update(rank(d, name), (name, values))),
        holds(d, name) ==> sorted(d.remove(rank(d, name))),
        !holds(d, name) ==> sorted(d.insert(rank(d, name), (name, values))),
{
    let r = rank(d, name);
    lemma_rank(d, name);
    if holds(d, name) {
        let w = d.update(r, (name, values));
        assert forall|i: int, j: int| 0 <= i < j < w.len() implies text_before(
            #[trigger] w[i].0,
            #[trigger] w[j].0,
        ) by {
            assert(text_before(d[i].0, d[j].0));
        }
        let x = d.remove(r);
        assert forall|i: int, j: int| 0 <= i < j < x.len() implies text_before(
            #[trigger] x[i].0,
            #[trigger] x[j].0,
        ) by {
            let a = if i < r {
                i
            } else {
                i + 1
            };
            let b = if j < r {
                j
            } else {
                j + 1
            };
            assert(text_before(d[a].0, d[b].0));
        }
    } else {
        let w = d.insert(r, (name, values));
        assert forall|i: int, j: int| 0 <= i < j < w.len() implies text_before(
            #[trigger] w[i].0,
            #[trigger] w[j].0,
        ) by {
            if j < r {
                assert(text_before(d[i].0, d[j].0));
            } else if j == r {
                assert(text_before(d[i].0, name));
            } else if i == r {
                lemma_text_order_total(d[j - 1].0, name);
                if j - 1 > r {
                    assert(text_before(d[r].0, d[j - 1].0));
                    lemma_text_order_total(d[r].0, name);
                    lemma_text_order_transitive(name, d[r].0, d[j - 1].0);
                }
            } else if i < r {
                assert(text_before(d[i].0, d[j - 1].0));
            } else {
                assert(text_before(d[i - 1].0, d[j - 1].0));
            }
        }
    }
}

/// Setting the list of a field keeps the document well formed; the field
/// has the list, and every other field has what it had.
pub proof fn lemma_with_list(
    d: Seq<(Seq<char>, Seq<ValueView>)>,
    name: Seq<char>,
    values: Seq<ValueView>,
    other: Seq<char>,
)
    requires
        well_formed(d),
    ensures
        well_formed(with_list(d, name, values)),
        values_of(with_list(d, name, values), name) == values,
        other != name ==> values_of(with_list(d, name, values), other) == values_of(d, other),
{
    let r = rank(d, name);
    let w = with_list(d, name, values);
    lemma_rank(d, name);
    lemma_placed(d, name, values);
    lemma_text_order_irreflexive(name);
    assert(sorted(w));
    lemma_rank(w, name);
    lemma_holds(w, name);
    lemma_holds(d, name);
    lemma_rank(d, other);
    lemma_rank(w, other);
    lemma_holds(d, other);
    lemma_holds(w, other);
    let ro = rank(d, other);
    if holds(d, name) {
        if values.len() > 0 {
            assert(w[r].0 == name);
            lemma_rank_is(w, other, ro);
        } else {
            assert forall|j: int| 0 <= j < w.len() implies #[trigger] w[j].0 != name by {
                if j < r {
                    assert(text_before(d[j].0, name));
                } else {
                    assert(text_before(d[r].0, d[j + 1].0));
                }
            }
            assert(values_of(w, name) =~= values);
            if other != name {
                if ro <= r {
                    lemma_rank_is(w, other, ro);
                } else {
                    lemma_rank_is(w, other, ro - 1);
                }
            }
        }
    } else {
        if values.len() > 0 {
            assert(w[r].0 == name);
            if other != name {
                lemma_text_order_total(name, other);
                if text_before(name, other) {
                    if ro < r {
                        assert(text_before(d[ro].0, name));
                        lemma_text_order_transitive(d[ro].0, name, other);
                    }
                    lemma_rank_is(w, other, ro + 1);
                } else {
                    if ro > r {
                        assert(text_before(d[ro - 1].0, other));
                        assert(!text_before(d[r].0, name));
                        if r < ro - 1 {
                            assert(text_before(d[r].0, d[ro - 1].0));
                            lemma_text_order_transitive(d[r].0, d[ro - 1].0, other);
                        }
                        lemma_text_order_transitive(d[r].0, other, name);
                    }
                    lemma_rank_is(w, other, ro);
                }
            }
        } else {
            assert(values_of(w, name) =~= values);
        }
    }
}

/// Two well-formed documents in which every field has the same values
/// have the same first `i` fields.
pub proof fn lemma_same_fields_so_far(
    a: Seq<(Seq<char>, Seq<ValueView>)>,
    b: Seq<(Seq<char>, Seq<ValueView>)>,
    i: nat,
)
    requires
        well_formed(a),
        well_formed(b),
        forall|name: Seq<char>| #[trigger] values_of(a, name) == values_of(b, name),
        i <= a.len(),
    ensures
        i <= b.len(),
        forall|m: int| 0 <= m < i ==> a[m] == b[m],
    decreases i,
{
    if i > 0 {
        lemma_same_fields_so_far(a, b, (i - 1) as nat);
        let at = i - 1;
        let key = a[at].0;
        lemma_holds(a, key);
        lemma_rank(a, key);
        assert(values_of(a, key) == a[at].1);
        assert(values_of(b, key) == a[at].1);
        lemma_rank(b, key);
        lemma_holds(b, key);
        let j = rank(b, key);
        assert(holds(b, key));
        lemma_text_order_irreflexive(key);
        if j < at {
            assert(a[j] == b[j]);
            assert(text_before(a[j].0, a[at].0));
        } else if j > at {
            let other = b[at].0;
            assert(text_before(b[at].0, b[j].0));
            lemma_holds(b, other);
            lemma_rank(b, other);
            assert(values_of(b, other) == b[at].1);
            assert(values_of(a, other) == b[at].1);
            lemma_rank(a, other);
            lemma_holds(a, other);
            let m = rank(a, other);
            assert(holds(a, other));
            lemma_text_order_irreflexive(other);
            lemma_text_order_total(key, other);
            if m > at {
                assert(text_before(a[at].0, a[m].0));
            } else if m < at {
                assert(a[m] == b[m]);
                assert(text_before(b[m].0, b[at].0));
            }
        }
        assert(j == at);
        assert(b[at].0 == key);
        assert(b[at].1 == a[at].1);
    }
}

/// Two well-formed documents are the same document exactly if every field
/// has the same values in both.
pub proof fn lemma_same_fields_same_document(
    a: Seq<(Seq<char>, Seq<ValueView>)>,
    b: Seq<(Seq<char>, Seq<ValueView>)>,
)
    requires
        well_formed(a),
        well_formed(b),
    ensures
        a == b <==> forall|name: Seq<char>| #[trigger] values_of(a, name) == values_of(b, name),
{
    if forall|name: Seq<char>| #[trigger] values_of(a, name) == values_of(b, name) {
        lemma_same_fields_so_far(a, b, a.len());
        lemma_same_fields_so_far(b, a, b.len());
        assert(a =~= b);
    }
}

/// What the fields of a document stand for.
pub open spec fn field_views(fields: Seq<(String, Vec<Value>)>) -> Seq<
    (Seq<char>, Seq<ValueView>),
> {
    Seq::new(fields.len(), |i: int| (fields[i].0@, views(fields[i].1@)))
}

/// The list that a field gets from a host value: under the type that the
/// schema declares for the field, or without a declared type where there is
/// no schema. `None` says that the schema has no such field, and the key is
/// passed over.
pub open spec fn field_list(schema: Option<Seq<FieldEntry>>, key: Seq<char>, h: HostView) -> Option<
    Result<Seq<ValueView>, ErrorView>,
> {
    match schema {
        None => Some(untyped_list(h)),
        Some(entries) => match position_of(entries, key) {
            None => None,
            Some(i) => Some(typed_list(h, entries[i].field_type, key)),
        },
    }
}

/// The document after the entries of a host object are taken in, in their
/// order, and the error that ended the work, if one did.
///
/// Each entry sets the list of the field of its key; an entry whose key
/// the schema does not declare is passed over. The first entry that cannot
/// be coerced ends the work: the entries before it are in the document.
pub open spec fn extended(
    d: Seq<(Seq<char>, Seq<ValueView>)>,
    schema: Option<Seq<FieldEntry>>,
    entries: Seq<(Seq<char>, HostView)>,
) -> (Seq<(Seq<char>, Seq<ValueView>)>, Option<ErrorView>)
    decreases entries.len(),
{
    if entries.len() == 0 {
        (d, None)
    } else {
        let before = extended(d, schema, entries.drop_last());
        if before.1 is Some {
            before
        } else {
            match field_list(schema, entries.last().0, entries.last().1) {
                None => before,
                Some(Err(e)) => (before.0, Some(e)),
                Some(Ok(values)) => (with_list(before.0, entries.last().0, values), None),
            }
        }
    }
}

/// With a schema, an entry whose key the schema does not declare is passed
/// over, whatever its value is: it changes neither the document nor the
/// outcome.
pub proof fn lemma_undeclared_key_is_passed_over(
    d: Seq<(Seq<char>, Seq<ValueView>)>,
    declared: Seq<FieldEntry>,
    entries: Seq<(Seq<char>, HostView)>,
    key: Seq<char>,
    h: HostView,
)
    requires
        position_of(declared, key) is None,
    ensures
        extended(d, Some(declared), entries.push((key, h))) == extended(
            d,
            Some(declared),
            entries,
        ),
{
    assert(entries.push((key, h)).drop_last() =~= entries);
}

/// Once an error has ended the work, the entries after it change nothing.
pub proof fn lemma_extended_stops(
    d: Seq<(Seq<char>, Seq<ValueView>)>,
    schema: Option<Seq<FieldEntry>>,
    entries: Seq<(Seq<char>, HostView)>,
    i: int,
)
    requires
        0 <= i <= entries.len(),
        extended(d, schema, entries.take(i)).1 is Some,
    ensures
        extended(d, schema, entries) == extended(d, schema, entries.take(i)),
    decreases entries.len(),
{
    if i < entries.len() {
        assert(entries.drop_last().take(i) =~= entries.take(i));
        lemma_extended_stops(d, schema, entries.drop_last(), i);
    } else {
        assert(entries.take(i) =~= entries);
    }
}

/// Taking in the entries of a host object keeps a document well formed.
pub proof fn lemma_extended_well_formed(
    d: Seq<(Seq<char>, Seq<ValueView>)>,
    schema: Option<Seq<FieldEntry>>,
    entries: Seq<(Seq<char>, HostView)>,
)
    requires
        well_formed(d),
    ensures
        well_formed(extended(d, schema, entries).0),
    decreases entries.len(),
{
    if entries.len() > 0 {
        lemma_extended_well_formed(d, schema, entries.drop_last());
        let before = extended(d, schema, entries.drop_last());
        if before.1 is None {
            match field_list(schema, entries.last().0, entries.last().1) {
                Some(Ok(values)) => {
                    lemma_with_list(before.0, entries.last().0, values, entries.last().0);
                },
                _ => {},
            }
        }
    }
}

/// The texts among the values, joined by single spaces.
pub open spec fn joined_text(values: Seq<ValueView>) -> Seq<char>
    decreases values.len(),
{
    if values.len() == 0 {
        Seq::empty()
    } else {
        match values.last() {
            ValueView::Str(s) => if texts_in(values.drop_last()) == 0 {
                s
            } else {
                joined_text(values.drop_last()) + seq![' '] + s
            },
            _ => joined_text(values.drop_last()),
        }
    }
}

/// Values without a text among them join to the empty text.
pub proof fn lemma_no_texts(values: Seq<ValueView>)
    requires
        texts_in(values) == 0,
    ensures
        joined_text(values) == Seq::<char>::empty(),
    decreases values.len(),
{
    if values.len() > 0 {
        lemma_no_texts(values.drop_last());
    }
}

/// The number of texts among the values.
pub open spec fn texts_in(values: Seq<ValueView>) -> nat
    decreases values.len(),
{
    if values.len() == 0 {
        0
    } else if values.last() is Str {
        texts_in(values.drop_last()) + 1
    } else {
        texts_in(values.drop_last())
    }
}

/// The wire forms of a list of values.
pub open spec fn wire_list(values: Seq<ValueView>) -> Seq<JsonView> {
    Seq::new(values.len(), |k: int| wire(values[k]))
}

/// The wire form of a document: an object that has, for every field, the
/// array of the wire forms of its values under the field's name.
pub open spec fn wire_of_document(d: Seq<(Seq<char>, Seq<ValueView>)>) -> JsonView {
    JsonView::Object(Seq::new(d.len(), |i: int| (d[i].0, JsonView::Array(wire_list(d[i].1)))))
}

/// The document that the entries of a wire form stand for: each entry
/// sets the list of the field of its key.
pub open spec fn read_fields(entries: Seq<(Seq<char>, JsonView)>) -> Option<
    Seq<(Seq<char>, Seq<ValueView>)>,
>
    decreases entries.len(),
{
    if entries.len() == 0 {
        Some(Seq::empty())
    } else {
        match (read_fields(entries.drop_last()), entries.last().1) {
            (Some(d), JsonView::Array(items)) => match unwire_items(items) {
                Some(values) => Some(with_list(d, entries.last().0, values)),
                None => None,
            },
            _ => None,
        }
    }
}

/// The document that a wire form stands for, or `None` for what is not
/// the wire form of a document.
pub open spec fn document_of_wire(j: JsonView) -> Option<Seq<(Seq<char>, Seq<ValueView>)>> {
    match j {
        JsonView::Object(entries) => read_fields(entries),
        _ => None,
    }
}

/// What the entries of a wire form stand for is a well-formed document.
pub proof fn lemma_read_fields_well_formed(entries: Seq<(Seq<char>, JsonView)>)
    ensures
        read_fields(entries) matches Some(d) ==> well_formed(d),
    decreases entries.len(),
{
    if entries.len() > 0 {
        lemma_read_fields_well_formed(entries.drop_last());
        match (read_fields(entries.drop_last()), entries.last().1) {
            (Some(d), JsonView::Array(items)) => match unwire_items(items) {
                Some(values) => {
                    lemma_with_list(d, entries.last().0, values, entries.last().0);
                },
                None => {},
            },
            _ => {},
        }
    }
}

/// The entries of a wire form cannot be read if the entries up to one of
/// them cannot.
pub proof fn lemma_fields_unread(entries: Seq<(Seq<char>, JsonView)>, i: int)
    requires
        0 <= i <= entries.len(),
        read_fields(entries.take(i)) is None,
    ensures
        read_fields(entries) is None,
    decreases entries.len(),
{
    if i < entries.len() {
        assert(entries.drop_last().take(i) =~= entries.take(i));
        lemma_fields_unread(entries.drop_last(), i);
    } else {
        assert(entries.take(i) =~= entries);
    }
}

/// The first `n` fields of a well-formed document come back from their
/// wire forms.
pub proof fn lemma_fields_round_trip(d: Seq<(Seq<char>, Seq<ValueView>)>, n: int)
    requires
        well_formed(d),
        0 <= n <= d.len(),
    ensures
        read_fields(wire_of_document(d)->Object_0.take(n)) == Some(d.take(n)),
    decreases n,
{
    let w = wire_of_document(d)->Object_0;
    if n == 0 {
        assert(d.take(0) =~= Seq::empty());
    } else {
        lemma_fields_round_trip(d, n - 1);
        assert(w.take(n).drop_last() =~= w.take(n - 1));
        let values = d[n - 1].1;
        let whole = ValueView::Array(values);
        lemma_items_round_trip(whole, values.len() as int);
        assert(wire(whole)->Object_0[0].1->Array_0 =~= wire_list(values));
        assert(wire_list(values).take(values.len() as int) =~= wire_list(values));
        assert(values.take(values.len() as int) =~= values);
        let front = d.take(n - 1);
        assert(sorted(front)) by {
            assert forall|i: int, j: int| 0 <= i < j < front.len() implies text_before(
                #[trigger] front[i].0,
                #[trigger] front[j].0,
            ) by {
                assert(text_before(d[i].0, d[j].0));
            }
        }
        assert forall|j: int| 0 <= j < n - 1 implies text_before(
            #[trigger] front[j].0,
            d[n - 1].0,
        ) by {
            assert(text_before(d[j].0, d[n - 1].0));
        }
        lemma_rank_is(front, d[n - 1].0, n - 1);
        assert(d[n - 1].1.len() > 0);
        assert(front.insert(n - 1, (d[n - 1].0, values)) =~= d.take(n));
    }
}

/// A well-formed document comes back from its wire form as what it was.
pub proof fn lemma_document_round_trip(d: Seq<(Seq<char>, Seq<ValueView>)>)
    requires
        well_formed(d),
    ensures
        document_of_wire(wire_of_document(d)) == Some(d),
{
    lemma_fields_round_trip(d, d.len() as int);
    let w = wire_of_document(d)->Object_0;
    assert(w.take(d.len() as int) =~= w);
    assert(d.take(d.len() as int) =~= d);
}

/// JSON text carries the wire form of every document as it is.
pub proof fn lemma_document_wire_is_carried(d: Seq<(Seq<char>, Seq<ValueView>)>)
    ensures
        carried(wire_of_document(d)) == wire_of_document(d),
{
    let fields = wire_of_document(d)->Object_0;
    assert forall|i: int| 0 <= i < fields.len() implies carried(#[trigger] fields[i].1)
        == fields[i].1 by {
        let forms = wire_list(d[i].1);
        assert forall|k: int| 0 <= k < forms.len() implies carried(#[trigger] forms[k])
            == forms[k] by {
            lemma_wire_is_carried(d[i].1[k]);
        }
        lemma_array_is_carried(forms);
    }
    assert(carried(wire_of_document(d))->Object_0 =~= fields);
}

/// A well-formed document comes back from what JSON text carries of its
/// wire form.
pub proof fn lemma_document_round_trip_through_json(d: Seq<(Seq<char>, Seq<ValueView>)>)
    requires
        well_formed(d),
    ensures
        document_of_wire(carried(wire_of_document(d))) == Some(d),
{
    lemma_document_wire_is_carried(d);
    lemma_document_round_trip(d);
}

/// A document.
#[derive(Debug, PartialEq)]
pub struct Document {
    fields: Vec<(String, Vec<Value>)>,
}

impl View for Document {
    type V = Seq<(Seq<char>, Seq<ValueView>)>;

    closed spec fn view(&self) -> Seq<(Seq<char>, Seq<ValueView>)> {
        field_views(self.fields@)
    }
}

impl Document {
    #[verifier::type_invariant]
    spec fn inv(&self) -> bool {
        well_formed(field_views(self.fields@))
    }

    /// A document without fields.
    pub fn new() -> (d: Document)
        ensures
            d@ == Seq::<(Seq<char>, Seq<ValueView>)>::empty(),
            well_formed(d@),
    {
        let fields: Vec<(String, Vec<Value>)> = Vec::new();
        assert(field_views(fields@) =~= Seq::empty());
        Document { fields }
    }

    /// The place of the field of a name, and whether the document has it.
    fn locate(&self, name: &str) -> (r: (usize, bool))
        ensures
            r.0 == rank(self@, name@),
            r.1 == holds(self@, name@),
            r.0 <= self.fields@.len(),
            well_formed(self@),
    {
        proof {
            use_type_invariant(self);
        }
        let ghost d = field_views(self.fields@);
        let mut i: usize = 0;
        while i < self.fields.len()
            invariant
                i <= self.fields.len(),
                d == field_views(self.fields@),
                d == self@,
                well_formed(d),
                sorted(d),
                forall|j: int| 0 <= j < i ==> text_before(#[trigger] d[j].0, name@),
            decreases self.fields.len() - i,
        {
            assert(d[i as int].0 == self.fields@[i as int].0@);
            match order_texts(self.fields[i].0.as_str(), name) {
                TextOrder::Before => {},
                TextOrder::Same => {
                    proof {
                        lemma_text_order_irreflexive(name@);
                        lemma_rank_is(d, name@, i as int);
                    }
                    return (i, true);
                },
                TextOrder::After => {
                    proof {
                        lemma_text_order_total(d[i as int].0, name@);
                        lemma_rank_is(d, name@, i as int);
                    }
                    return (i, false);
                },
            }
            i += 1;
        }
        proof {
            lemma_rank_is(d, name@, i as int);
        }
        (i, false)
    }

    /// Sets the list of a field; with an empty list the field leaves the
    /// document.
    fn set_list(&mut self, field_name: String, list: Vec<Value>)
        ensures
            final(self)@ == with_list(old(self)@, field_name@, views(list@)),
            well_formed(final(self)@),
    {
        let (i, found) = self.locate(field_name.as_str());
        let ghost d = self@;
        let ghost name = field_name@;
        proof {
            lemma_with_list(d, name, views(list@), name);
        }
        let mut taken = Document { fields: Vec::new() };
        proof {
            assert(field_views(taken.fields@) =~= Seq::empty());
        }
        core::mem::swap(self, &mut taken);
        let mut fields = taken.fields;
        if found {
            let _ = fields.remove(i);
            if list.len() > 0 {
                fields.insert(i, (field_name, list));
                proof {
                    assert(field_views(fields@) =~= d.update(i as int, (name, views(list@))));
                }
            } else {
                proof {
                    assert(field_views(fields@) =~= d.remove(i as int));
                }
            }
        } else {
            if list.len() > 0 {
                fields.insert(i, (field_name, list));
                proof {
                    assert(field_views(fields@) =~= d.insert(i as int, (name, views(list@))));
                }
            }
        }
        *self = Document { fields };
    }

    /// Adds a value to a field, after the values that the field has.
    pub fn add_value(&mut self, field_name: String, value: Value)
        ensures
            final(self)@ == with_value(old(self)@, field_name@, value@),
            appended(old(self)@, final(self)@, field_name@, value@),
    {
        let (i, found) = self.locate(field_name.as_str());
        let ghost d = self@;
        let ghost name = field_name@;
        proof {
            lemma_with_value(d, name, value@, name);
            lemma_appended(d, name, value@);
        }
        let mut taken = Document { fields: Vec::new() };
        proof {
            assert(field_views(taken.fields@) =~= Seq::empty());
        }
        core::mem::swap(self, &mut taken);
        let mut fields = taken.fields;
        if found {
            let (key, mut list) = fields.remove(i);
            proof {
                assert(views(list@.push(value)) =~= views(list@).push(value@));
            }
            list.push(value);
            fields.insert(i, (key, list));
            proof {
                assert(field_views(fields@) =~= d.update(i as int, (name, d[i as int].1.push(value@))));
            }
        } else {
            let mut list: Vec<Value> = Vec::new();
            list.push(value);
            proof {
                assert(views(list@) =~= seq![value@]);
            }
            fields.insert(i, (field_name, list));
            proof {
                assert(field_views(fields@) =~= d.insert(i as int, (name, seq![value@])));
            }
        }
        *self = Document { fields };
    }

    /// Adds a text to a field.
    pub fn add_text(&mut self, field_name: String, text: String)
        ensures
            final(self)@ == with_value(old(self)@, field_name@, ValueView::Str(text@)),
            appended(old(self)@, final(self)@, field_name@, ValueView::Str(text@)),
    {
        self.add_value(field_name, Value::Str(text));
    }

    /// Adds an unsigned integer to a field.
    pub fn add_unsigned(&mut self, field_name: String, value: u32)
        ensures
            final(self)@ == with_value(old(self)@, field_name@, ValueView::U64(value as u64)),
            appended(old(self)@, final(self)@, field_name@, ValueView::U64(value as u64)),
    {
        self.add_value(field_name, Value::U64(value as u64));
    }

    /// Adds a signed integer to a field.
    pub fn add_integer(&mut self, field_name: String, value: i64)
        ensures
            final(self)@ == with_value(old(self)@, field_name@, ValueView::I64(value)),
            appended(old(self)@, final(self)@, field_name@, ValueView::I64(value)),
    {
        self.add_value(field_name, Value::I64(value));
    }

    /// Adds a float, given by its bit pattern, to a field.
    pub fn add_float(&mut self, field_name: String, value: u64)
        ensures
            final(self)@ == with_value(old(self)@, field_name@, ValueView::F64(value)),
            appended(old(self)@, final(self)@, field_name@, ValueView::F64(value)),
    {
        self.add_value(field_name, Value::F64(value));
    }

    /// Adds a boolean to a field.
    pub fn add_boolean(&mut self, field_name: String, value: bool)
        ensures
            final(self)@ == with_value(old(self)@, field_name@, ValueView::Bool(value)),
            appended(old(self)@, final(self)@, field_name@, ValueView::Bool(value)),
    {
        self.add_value(field_name, Value::Bool(value));
    }

    /// Adds a date to a field: the whole second of a host time in
    /// milliseconds.
    pub fn add_date(&mut self, field_name: String, timestamp_millis: i64)
        ensures
            final(self)@ == with_value(
                old(self)@,
                field_name@,
                ValueView::Date(millis_to_seconds_spec(timestamp_millis)),
            ),
            appended(
                old(self)@,
                final(self)@,
                field_name@,
                ValueView::Date(millis_to_seconds_spec(timestamp_millis)),
            ),
    {
        self.add_value(field_name, Value::Date(millis_to_seconds(timestamp_millis)));
    }

    /// Adds a facet to a field.
    pub fn add_facet(&mut self, field_name: String, facet: &Facet)
        ensures
            final(self)@ == with_value(old(self)@, field_name@, ValueView::Facet(facet@)),
            appended(old(self)@, final(self)@, field_name@, ValueView::Facet(facet@)),
    {
        self.add_value(field_name, Value::Facet(facet.duplicate()));
    }

    /// Adds a byte string to a field.
    pub fn add_bytes(&mut self, field_name: String, bytes: &Vec<u8>)
        ensures
            final(self)@ == with_value(old(self)@, field_name@, ValueView::Bytes(bytes@)),
            appended(old(self)@, final(self)@, field_name@, ValueView::Bytes(bytes@)),
    {
        self.add_value(field_name, Value::Bytes(copy_bytes(bytes)));
    }

    /// Adds a host object to a field, coerced as a JSON field takes it. If
    /// the host value is not one that a JSON field takes, the document
    /// stays as it is.
    pub fn add_json(&mut self, field_name: String, value: &HostValue) -> (r: Result<(), Error>)
        ensures
            well_formed(final(self)@),
            match typed(value@, FieldType::JsonObject, field_name@) {
                Ok(v) => r is Ok && final(self)@ == with_value(old(self)@, field_name@, v),
                Err(e) => r matches Err(err) && err@ == e && final(self)@ == old(self)@,
            },
    {
        proof {
            use_type_invariant(&*self);
        }
        match extract_value_for_type(value, FieldType::JsonObject, field_name.as_str()) {
            Ok(v) => {
                self.add_value(field_name, v);
                Ok(())
            },
            Err(e) => Err(e),
        }
    }

    /// Adds the IP address that a text denotes to a field. If the text
    /// denotes none, the document stays as it is.
    pub fn add_ip_addr(&mut self, field_name: String, value: &str) -> (r: Result<(), Error>)
        ensures
            well_formed(final(self)@),
            match denoted_address(value@) {
                Some(a) => r is Ok && final(self)@ == with_value(
                    old(self)@,
                    field_name@,
                    ValueView::IpAddr(a),
                ),
                None => r matches Err(err) && err@ == about(ErrorKind::InvalidIpAddr, value@)
                    && final(self)@ == old(self)@,
            },
    {
        proof {
            use_type_invariant(&*self);
        }
        match crate::ip::parse(value) {
            Some(a) => {
                self.add_value(field_name, Value::IpAddr(a));
                Ok(())
            },
            None => Err(Error::new(ErrorKind::InvalidIpAddr, value)),
        }
    }

    /// The number of fields, as the host takes it: in 32 bits.
    pub fn num_fields(&self) -> (n: u32)
        ensures
            n == self@.len() % 0x1_0000_0000,
    {
        (self.fields.len() as u64 % 0x1_0000_0000) as u32
    }

    /// Whether the document has no field.
    pub fn is_empty(&self) -> (r: bool)
        ensures
            r == (self@.len() == 0),
    {
        self.fields.len() == 0
    }

    /// The values of a field; none if the document has no such field.
    pub fn iter_values_for_field(&self, field: &str) -> (r: Vec<Value>)
        ensures
            views(r@) == values_of(self@, field@),
    {
        let (i, found) = self.locate(field);
        let mut out: Vec<Value> = Vec::new();
        if found {
            let list = &self.fields[i].1;
            let mut k: usize = 0;
            while k < list.len()
                invariant
                    k <= list.len(),
                    out@.len() == k,
                    forall|j: int| 0 <= j < k ==> out@[j]@ == list@[j]@,
                decreases list.len() - k,
            {
                out.push(list[k].duplicate());
                k += 1;
            }
            proof {
                assert(views(out@) =~= views(list@));
            }
        } else {
            proof {
                assert(views(out@) =~= Seq::empty());
            }
        }
        out
    }

    /// The first value of a field, rendered; `None` if the document has no
    /// such field.
    pub fn get_first(&self, field_name: &str) -> (r: Option<Json>)
        ensures
            match r {
                Some(j) => holds(self@, field_name@) && j@ == rendering(
                    values_of(self@, field_name@)[0],
                ),
                None => !holds(self@, field_name@),
            },
    {
        let (i, found) = self.locate(field_name);
        if found {
            proof {
                assert(self@[i as int].1 == views(self.fields@[i as int].1@));
            }
            Some(value_to_js(&self.fields[i].1[0]))
        } else {
            None
        }
    }

    /// All values of a field, rendered, in their order.
    pub fn get_all(&self, field_name: &str) -> (r: Vec<Json>)
        ensures
            r@.len() == values_of(self@, field_name@).len(),
            forall|j: int|
                0 <= j < r@.len() ==> (#[trigger] r@[j])@ == nested_rendering(
                    values_of(self@, field_name@)[j],
                ),
    {
        let (i, found) = self.locate(field_name);
        let mut out: Vec<Json> = Vec::new();
        if found {
            let list = &self.fields[i].1;
            proof {
                assert(self@[i as int].1 == views(list@));
            }
            let mut k: usize = 0;
            while k < list.len()
                invariant
                    k <= list.len(),
                    out@.len() == k,
                    forall|j: int| 0 <= j < k ==> (#[trigger] out@[j])@ == nested_rendering(list@[j]@),
                decreases list.len() - k,
            {
                out.push(value_to_serde_json(&list[k]));
                k += 1;
            }
        }
        out
    }

    /// The texts among the values of a field, joined by single spaces.
    pub fn text_of(&self, field_name: &str) -> (r: String)
        ensures
            r@ == joined_text(values_of(self@, field_name@)),
    {
        let (i, found) = self.locate(field_name);
        let mut out = String::new();
        if found {
            let list = &self.fields[i].1;
            let ghost all = views(list@);
            proof {
                assert(self@[i as int].1 == all);
                assert(all.take(0) =~= Seq::empty());
            }
            let mut seen: usize = 0;
            let mut k: usize = 0;
            while k < list.len()
                invariant
                    k <= list.len(),
                    all == views(list@),
                    seen == texts_in(all.take(k as int)),
                    seen <= k,
                    out@ == joined_text(all.take(k as int)),
                decreases list.len() - k,
            {
                proof {
                    assert(all.take(k + 1).drop_last() =~= all.take(k as int));
                    assert(all.take(k + 1).last() == list@[k as int]@);
                }
                match &list[k] {
                    Value::Str(s) => {
                        proof {
                            if seen == 0 {
                                lemma_no_texts(all.take(k as int));
                                assert(Seq::<char>::empty() + s@ =~= s@);
                            }
                        }
                        if seen > 0 {
                            proof {
                                reveal_strlit(" ");
                                assert(" "@ =~= seq![' ']);
                            }
                            out = vstd::string::StringExecFns::concat(out, " ");
                        }
                        out = vstd::string::StringExecFns::concat(out, s.as_str());
                        seen += 1;
                    },
                    _ => {},
                }
                k += 1;
            }
            proof {
                assert(all.take(k as int) =~= all);
            }
        }
        out
    }

    /// For every field, in the order of the names, the field's name and
    /// the list of its values, each rendered. A field with one value has a
    /// list of one.
    pub fn to_dict(&self) -> (r: Vec<(String, Vec<Json>)>)
        ensures
            r@.len() == self@.len(),
            forall|i: int|
                0 <= i < r@.len() ==> (#[trigger] r@[i]).0@ == self@[i].0 && r@[i].1@.len()
                    == self@[i].1.len(),
            forall|i: int, j: int|
                0 <= i < r@.len() && 0 <= j < r@[i].1@.len() ==> (#[trigger] r@[i].1@[j])@
                    == rendering(self@[i].1[j]),
    {
        let mut out: Vec<(String, Vec<Json>)> = Vec::new();
        let mut i: usize = 0;
        while i < self.fields.len()
            invariant
                i <= self.fields.len(),
                out@.len() == i,
                forall|a: int|
                    0 <= a < i ==> (#[trigger] out@[a]).0@ == self.fields@[a].0@ && out@[a].1@.len()
                        == self.fields@[a].1@.len(),
                forall|a: int, b: int|
                    0 <= a < i && 0 <= b < out@[a].1@.len() ==> (#[trigger] out@[a].1@[b])@
                        == rendering(self.fields@[a].1@[b]@),
            decreases self.fields.len() - i,
        {
            let list = &self.fields[i].1;
            let mut shown: Vec<Json> = Vec::new();
            let mut k: usize = 0;
            while k < list.len()
                invariant
                    k <= list.len(),
                    shown@.len() == k,
                    forall|b: int| 0 <= b < k ==> (#[trigger] shown@[b])@ == rendering(list@[b]@),
                decreases list.len() - k,
            {
                shown.push(value_to_js(&list[k]));
                k += 1;
            }
            out.push((self.fields[i].0.clone(), shown));
            i += 1;
        }
        out
    }

    /// Takes in the entries of a host object: each entry sets the list of
    /// the field of its key. With a schema, each list is coerced under the
    /// declared type of its field, and an entry whose key the schema does
    /// not declare is passed over.
    pub fn extend(&mut self, js_obj: &HostValue, schema: Option<&Schema>) -> (r: Result<(), Error>)
        ensures
            well_formed(final(self)@),
            match js_obj@ {
                HostView::Object(entries) => {
                    let after = extended(
                        old(self)@,
                        match schema {
                            Some(s) => Some(s.entries()),
                            None => None,
                        },
                        entries,
                    );
                    &&& final(self)@ == after.0
                    &&& match after.1 {
                        None => r is Ok,
                        Some(e) => r matches Err(err) && err@ == e,
                    }
                },
                _ => r matches Err(err) && err@ == bare(ErrorKind::ExpectedObject) && final(self)@
                    == old(self)@,
            },
    {
        proof {
            use_type_invariant(&*self);
        }
        let entries = match js_obj {
            HostValue::Object(entries) => entries,
            _ => {
                return Err(Error::bare(ErrorKind::ExpectedObject));
            },
        };
        proof {
            lemma_host_object_view(*entries);
        }
        let ghost all = host_entry_views(entries@);
        let ghost start = self@;
        let ghost declared = match schema {
            Some(s) => Some(s.entries()),
            None => None,
        };
        let mut i: usize = 0;
        proof {
            assert(all.take(0) =~= Seq::empty());
        }
        while i < entries.len()
            invariant
                i <= entries.len(),
                all == host_entry_views(entries@),
                js_obj@ == HostView::Object(all),
                declared == match schema {
                    Some(s) => Some(s.entries()),
                    None => None,
                },
                well_formed(self@),
                start == old(self)@,
                extended(start, declared, all.take(i as int)) == (self@, None::<ErrorView>),
            decreases entries.len() - i,
        {
            proof {
                assert(all.take(i + 1).drop_last() =~= all.take(i as int));
                assert(all.take(i + 1).last() == (entries@[i as int].0@, entries@[i as int].1@));
            }
            let key = entries[i].0.as_str();
            let list = match schema {
                None => Some(extract_value_single_or_list(&entries[i].1)),
                Some(s) => {
                    proof {
                        lemma_position_of(s.entries(), key@);
                    }
                    match s.get_field(key) {
                        Err(_) => None,
                        Ok(field) => match s.get_field_entry(field) {
                            Some(entry) => Some(
                                extract_value_single_or_list_for_type(
                                    &entries[i].1,
                                    entry.field_type,
                                    key,
                                ),
                            ),
                            None => None,
                        },
                    }
                },
            };
            match list {
                None => {},
                Some(Err(e)) => {
                    proof {
                        assert(extended(start, declared, all.take(i + 1)) == (
                            self@,
                            Some(e@),
                        ));
                        lemma_extended_stops(start, declared, all, i + 1);
                    }
                    return Err(e);
                },
                Some(Ok(values)) => {
                    self.set_list(entries[i].0.clone(), values);
                },
            }
            i += 1;
        }
        proof {
            assert(all.take(i as int) =~= all);
        }
        Ok(())
    }

    /// The document of the entries of a host object.
    pub fn from_dict(js_obj: &HostValue, schema: Option<&Schema>) -> (r: Result<Document, Error>)
        ensures
            match js_obj@ {
                HostView::Object(entries) => {
                    let after = extended(
                        Seq::empty(),
                        match schema {
                            Some(s) => Some(s.entries()),
                            None => None,
                        },
                        entries,
                    );
                    match after.1 {
                        None => r matches Ok(d) && d@ == after.0 && well_formed(d@),
                        Some(e) => r matches Err(err) && err@ == e,
                    }
                },
                _ => r matches Err(err) && err@ == bare(ErrorKind::ExpectedObject),
            },
    {
        let mut d = Document::new();
        match d.extend(js_obj, schema) {
            Ok(_) => Ok(d),
            Err(e) => Err(e),
        }
    }

    /// Whether two documents have the same fields with the same values.
    pub fn same(&self, other: &Document) -> (r: bool)
        ensures
            r == (self@ == other@),
    {
        if self.fields.len() != other.fields.len() {
            assert(self@.len() != other@.len());
            return false;
        }
        let mut i: usize = 0;
        while i < self.fields.len()
            invariant
                i <= self.fields.len(),
                self.fields.len() == other.fields.len(),
                forall|j: int| 0 <= j < i ==> self@[j] == other@[j],
            decreases self.fields.len() - i,
        {
            let a = &self.fields[i];
            let b = &other.fields[i];
            assert(self@[i as int] == (a.0@, views(a.1@)));
            assert(other@[i as int] == (b.0@, views(b.1@)));
            if !(a.0 == b.0) || a.1.len() != b.1.len() {
                assert(views(a.1@).len() == a.1@.len());
                assert(views(b.1@).len() == b.1@.len());
                return false;
            }
            let mut k: usize = 0;
            while k < a.1.len()
                invariant
                    k <= a.1.len(),
                    a.1.len() == b.1.len(),
                    0 <= i < self@.len(),
                    self@[i as int] == (a.0@, views(a.1@)),
                    other@[i as int] == (b.0@, views(b.1@)),
                    forall|j: int| 0 <= j < k ==> a.1@[j]@ == b.1@[j]@,
                decreases a.1.len() - k,
            {
                if !a.1[k].same(&b.1[k]) {
                    assert(views(a.1@)[k as int] != views(b.1@)[k as int]);
                    return false;
                }
                k += 1;
            }
            assert(views(a.1@) =~= views(b.1@));
            i += 1;
        }
        assert(self@ =~= other@);
        true
    }
    /// The wire form of the document.
    pub fn to_wire(&self) -> (r: Json)
        ensures
            r@ == wire_of_document(self@),
    {
        let mut out: Vec<(String, Json)> = Vec::new();
        let mut i: usize = 0;
        while i < self.fields.len()
            invariant
                i <= self.fields.len(),
                out@.len() == i,
                forall|a: int|
                    0 <= a < i ==> (#[trigger] out@[a]).0@ == self.fields@[a].0@ && out@[a].1@
                        == JsonView::Array(wire_list(views(self.fields@[a].1@))),
            decreases self.fields.len() - i,
        {
            let list = &self.fields[i].1;
            let mut shown: Vec<Json> = Vec::new();
            let mut k: usize = 0;
            while k < list.len()
                invariant
                    k <= list.len(),
                    shown@.len() == k,
                    forall|b: int| 0 <= b < k ==> (#[trigger] shown@[b])@ == wire(list@[b]@),
                decreases list.len() - k,
            {
                shown.push(to_wire(&list[k]));
                k += 1;
            }
            proof {
                lemma_json_array_view(shown);
                assert(json_views(shown@) =~= wire_list(views(list@)));
            }
            out.push((self.fields[i].0.clone(), Json::Array(shown)));
            i += 1;
        }
        proof {
            lemma_json_object_view(out);
            assert(json_entry_views(out@) =~= wire_of_document(self@)->Object_0);
        }
        Json::Object(out)
    }

    /// Reads a document from its wire form.
    pub fn from_wire(json: &Json) -> (r: Result<Document, Error>)
        ensures
            match document_of_wire(json@) {
                Some(d) => r matches Ok(doc) && doc@ == d && well_formed(d),
                None => r matches Err(e) && e@ == bare(ErrorKind::InvalidWire),
            },
    {
        let entries = match json {
            Json::Object(entries) => entries,
            _ => {
                return Err(Error::bare(ErrorKind::InvalidWire));
            },
        };
        proof {
            lemma_json_object_view(*entries);
        }
        let ghost all = json_entry_views(entries@);
        let mut doc = Document::new();
        let mut i: usize = 0;
        proof {
            assert(all.take(0) =~= Seq::empty());
        }
        while i < entries.len()
            invariant
                i <= entries.len(),
                all == json_entry_views(entries@),
                json@ == JsonView::Object(all),
                well_formed(doc@),
                read_fields(all.take(i as int)) == Some(doc@),
            decreases entries.len() - i,
        {
            proof {
                assert(all.take(i + 1).drop_last() =~= all.take(i as int));
                assert(all.take(i + 1).last() == (entries@[i as int].0@, entries@[i as int].1@));
            }
            let values = match &entries[i].1 {
                Json::Array(items) => {
                    proof {
                        lemma_json_array_view(*items);
                    }
                    let mut out: Vec<Value> = Vec::new();
                    let ghost forms = json_views(items@);
                    let mut k: usize = 0;
                    let mut failed = false;
                    proof {
                        assert(forms.take(0) =~= Seq::empty());
                        assert(views(out@) =~= Seq::empty());
                    }
                    while k < items.len() && !failed
                        invariant
                            k <= items.len(),
                            forms == json_views(items@),
                            !failed ==> unwire_items(forms.take(k as int)) == Some(views(out@)),
                            failed ==> unwire_items(forms) is None,
                        decreases items.len() - k,
                    {
                        proof {
                            assert(forms.take(k + 1).drop_last() =~= forms.take(k as int));
                            assert(forms.take(k + 1).last() == items@[k as int]@);
                        }
                        match from_wire(&items[k]) {
                            Ok(v) => {
                                proof {
                                    assert(views(out@.push(v)) =~= views(out@).push(v@));
                                }
                                out.push(v);
                            },
                            Err(_) => {
                                proof {
                                    crate::wire::lemma_items_unread(forms, k as int);
                                }
                                failed = true;
                            },
                        }
                        k += 1;
                    }
                    proof {
                        if !failed {
                            assert(forms.take(k as int) =~= forms);
                        }
                    }
                    if failed {
                        None
                    } else {
                        Some(out)
                    }
                },
                _ => None,
            };
            match values {
                Some(list) => {
                    doc.set_list(entries[i].0.clone(), list);
                },
                None => {
                    proof {
                        lemma_fields_unread(all, i + 1);
                    }
                    return Err(Error::bare(ErrorKind::InvalidWire));
                },
            }
            i += 1;
        }
        proof {
            assert(all.take(i as int) =~= all);
        }
        Ok(doc)
    }

    /// A copy of the document.
    pub fn duplicate(&self) -> (r: Document)
        ensures
            r@ == self@,
    {
        proof {
            use_type_invariant(self);
        }
        let mut fields: Vec<(String, Vec<Value>)> = Vec::new();
        let mut i: usize = 0;
        while i < self.fields.len()
            invariant
                i <= self.fields.len(),
                fields@.len() == i,
                forall|a: int|
                    0 <= a < i ==> (#[trigger] fields@[a]).0@ == self.fields@[a].0@ && views(
                        fields@[a].1@,
                    ) == views(self.fields@[a].1@),
            decreases self.fields.len() - i,
        {
            let list = &self.fields[i].1;
            let mut copy: Vec<Value> = Vec::new();
            let mut k: usize = 0;
            while k < list.len()
                invariant
                    k <= list.len(),
                    copy@.len() == k,
                    forall|b: int| 0 <= b < k ==> copy@[b]@ == list@[b]@,
                decreases list.len() - k,
            {
                copy.push(list[k].duplicate());
                k += 1;
            }
            proof {
                assert(views(copy@) =~= views(list@));
            }
            fields.push((self.fields[i].0.clone(), copy));
            i += 1;
        }
        proof {
            assert(field_views(fields@) =~= field_views(self.fields@));
        }
        Document { fields }
    }
}

impl Clone for Document {
    fn clone(&self) -> (r: Document)
        ensures
            r@ == self@,
    {
        self.duplicate()
    }
}

} // verus!
