//! The host's untyped data model.

use vstd::prelude::*;

verus! {

/// A value as the host hands it over: a scalar, a binary buffer, an array,
/// or an object with its own keys in enumeration order. A number is held by
/// its bit pattern. `Opaque` stands for every kind that carries no data a
/// field could hold: a function, a symbol, an external handle.
#[derive(Debug, PartialEq)]
pub enum HostValue {
    Undefined,
    Null,
    Bool(bool),
    Number(u64),
    Str(String),
    Buffer(Vec<u8>),
    Array(Vec<HostValue>),
    Object(Vec<(String, HostValue)>),
    Opaque,
}

/// What a `HostValue` stands for.
pub enum HostView {
    Undefined,
    Null,
    Bool(bool),
    Number(u64),
    Str(Seq<char>),
    Buffer(Seq<u8>),
    Array(Seq<HostView>),
    Object(Seq<(Seq<char>, HostView)>),
    Opaque,
}

/// What a host value stands for.
pub open spec fn host_view_of(v: HostValue) -> HostView
    decreases v,
{
    match v {
        HostValue::Undefined => HostView::Undefined,
        HostValue::Null => HostView::Null,
        HostValue::Bool(b) => HostView::Bool(b),
        HostValue::Number(bits) => HostView::Number(bits),
        HostValue::Str(s) => HostView::Str(s@),
        HostValue::Buffer(b) => HostView::Buffer(b@),
        HostValue::Array(items) => HostView::Array(
            Seq::new(
                items@.len(),
                |i: int|
                    if 0 <= i < items@.len() {
                        host_view_of(items@[i])
                    } else {
                        HostView::Undefined
                    },
            ),
        ),
        HostValue::Object(entries) => HostView::Object(
            Seq::new(
                entries@.len(),
                |i: int|
                    if 0 <= i < entries@.len() {
                        (entries@[i].0@, host_view_of(entries@[i].1))
                    } else {
                        (Seq::empty(), HostView::Undefined)
                    },
            ),
        ),
        HostValue::Opaque => HostView::Opaque,
    }
}

impl View for HostValue {
    type V = HostView;

    open spec fn view(&self) -> HostView {
        host_view_of(*self)
    }
}

/// The views of a list of host values.
pub open spec fn host_views(items: Seq<HostValue>) -> Seq<HostView> {
    Seq::new(items.len(), |i: int| items[i]@)
}

/// The views of a list of keyed host values.
pub open spec fn host_entry_views(entries: Seq<(String, HostValue)>) -> Seq<(Seq<char>, HostView)> {
    Seq::new(entries.len(), |i: int| (entries[i].0@, entries[i].1@))
}

/// An array is the views of its items.
pub proof fn lemma_host_array_view(items: Vec<HostValue>)
    ensures
        HostValue::Array(items)@ == HostView::Array(host_views(items@)),
{
    let v = HostValue::Array(items);
    assert(v@ is Array);
    assert(v@->Array_0.len() == items@.len());
    assert(forall|j: int| 0 <= j < items@.len() ==> v@->Array_0[j] == items@[j]@);
    assert(v@->Array_0 =~= host_views(items@));
}

/// An object is the views of its entries.
pub proof fn lemma_host_object_view(entries: Vec<(String, HostValue)>)
    ensures
        HostValue::Object(entries)@ == HostView::Object(host_entry_views(entries@)),
{
    let v = HostValue::Object(entries);
    assert(v@ is Object);
    assert(v@->Object_0.len() == entries@.len());
    assert(forall|j: int|
        0 <= j < entries@.len() ==> v@->Object_0[j] == (entries@[j].0@, entries@[j].1@));
    assert(v@->Object_0 =~= host_entry_views(entries@));
}

/// A copy of every byte.
fn copy_buffer(bytes: &Vec<u8>) -> (r: Vec<u8>)
    ensures
        r@ == bytes@,
{
    let mut out: Vec<u8> = Vec::new();
    let mut i: usize = 0;
    while i < bytes.len()
        invariant
            i <= bytes.len(),
            out@ == bytes@.take(i as int),
        decreases bytes.len() - i,
    {
        out.push(bytes[i]);
        assert(out@ =~= bytes@.take(i + 1));
        i += 1;
    }
    assert(out@ =~= bytes@);
    out
}

impl HostValue {
    /// A deep copy.
    #[verifier::loop_isolation(false)]
    pub fn duplicate(&self) -> (r: HostValue)
        ensures
            r@ == self@,
        decreases self,
    {
        match self {
            HostValue::Undefined => HostValue::Undefined,
            HostValue::Null => HostValue::Null,
            HostValue::Bool(b) => HostValue::Bool(*b),
            HostValue::Number(bits) => HostValue::Number(*bits),
            HostValue::Str(s) => HostValue::Str(s.clone()),
            HostValue::Buffer(b) => HostValue::Buffer(copy_buffer(b)),
            HostValue::Array(items) => {
                let mut out: Vec<HostValue> = Vec::new();
                let mut i: usize = 0;
                while i < items.len()
                    invariant
                        i <= items.len(),
                        out@.len() == i,
                        forall|j: int| 0 <= j < i ==> out@[j]@ == items@[j]@,
                    decreases items.len() - i,
                {
                    let c = items[i].duplicate();
                    out.push(c);
                    i += 1;
                }
                proof {
                    lemma_host_array_view(out);
                    lemma_host_array_view(*items);
                    assert(host_views(out@) =~= host_views(items@));
                }
                HostValue::Array(out)
            },
            HostValue::Object(entries) => {
                let mut out: Vec<(String, HostValue)> = Vec::new();
                let mut i: usize = 0;
                while i < entries.len()
                    invariant
                        i <= entries.len(),
                        out@.len() == i,
                        forall|j: int|
                            0 <= j < i ==> (#[trigger] out@[j]).0@ == entries@[j].0@ && out@[j].1@
                                == entries@[j].1@,
                    decreases entries.len() - i,
                {
                    let c = entries[i].1.duplicate();
                    out.push((entries[i].0.clone(), c));
                    i += 1;
                }
                proof {
                    lemma_host_object_view(out);
                    lemma_host_object_view(*entries);
                    assert(host_entry_views(out@) =~= host_entry_views(entries@));
                }
                HostValue::Object(out)
            },
            HostValue::Opaque => HostValue::Opaque,
        }
    }
}

impl Clone for HostValue {
    fn clone(&self) -> (r: HostValue)
        ensures
            r@ == self@,
    {
        self.duplicate()
    }
}

} // verus!
