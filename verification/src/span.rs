//! A model of the spans the pipeline emits, and the export filter that
//! strips internal attributes before a span leaves the process.

use vstd::prelude::*;

use crate::text::{spec_starts_with, str_starts_with};

verus! {

/// The value of one span attribute.
pub enum AttrValue {
    Text(String),
    Int(i64),
    Flag(bool),
}

/// The view of an attribute value.
pub enum AttrValueV {
    Text(Seq<char>),
    Int(i64),
    Flag(bool),
}

impl View for AttrValue {
    type V = AttrValueV;

    open spec fn view(&self) -> AttrValueV {
        match self {
            AttrValue::Text(s) => AttrValueV::Text(s@),
            AttrValue::Int(i) => AttrValueV::Int(*i),
            AttrValue::Flag(b) => AttrValueV::Flag(*b),
        }
    }
}

/// One boundary's timed unit of work: its name, whether the distributed
/// trace sampled it, and the attributes recorded so far. Attributes recorded
/// later simply append; a span's data leaves for export when the boundary
/// completes.
pub struct Span {
    pub name: String,
    pub sampled: bool,
    pub attributes: Vec<(String, AttrValue)>,
}

/// The view of a span's attribute list.
pub open spec fn attrs_view(attrs: Seq<(String, AttrValue)>) -> Seq<(Seq<char>, AttrValueV)> {
    attrs.map_values(|e: (String, AttrValue)| (e.0@, e.1@))
}

impl Span {
    /// A fresh span with no attributes.
    pub fn new(name: String, sampled: bool) -> (r: Span)
        ensures
            r.name@ == name@,
            r.sampled == sampled,
            r.attributes@.len() == 0,
    {
        Span { name, sampled, attributes: Vec::new() }
    }

    /// Records one attribute, deferred or not: it appends to the span.
    pub fn record(&mut self, name: String, value: AttrValue)
        ensures
            final(self).attributes@ == old(self).attributes@.push((name, value)),
            final(self).name == old(self).name,
            final(self).sampled == old(self).sampled,
    {
        self.attributes.push((name, value));
    }
}

// ---------------------------------------------------------------------------
// The export filter.
// ---------------------------------------------------------------------------

/// The reserved prefix of attributes that never leave the process.
pub open spec fn spec_private_prefix() -> Seq<char> {
    "apollo_private."@
}

/// Whether an attribute is internal-only.
pub open spec fn spec_is_private(name: Seq<char>) -> bool {
    spec_starts_with(name, spec_private_prefix())
}

/// The attributes that survive export filtering, in order.
pub open spec fn spec_public_attrs(attrs: Seq<(Seq<char>, AttrValueV)>) -> Seq<
    (Seq<char>, AttrValueV),
>
    decreases attrs.len(),
{
    if attrs.len() == 0 {
        Seq::empty()
    } else {
        let rest = spec_public_attrs(attrs.drop_last());
        if spec_is_private(attrs.last().0) {
            rest
        } else {
            rest.push(attrs.last())
        }
    }
}

/// No surviving attribute is internal, and every attribute either survives
/// in place or was internal: the filter is exactly a projection.
pub proof fn law_filter_strips_private(attrs: Seq<(Seq<char>, AttrValueV)>)
    ensures
        forall|i: int| 0 <= i < spec_public_attrs(attrs).len()
            ==> !spec_is_private(#[trigger] spec_public_attrs(attrs)[i].0),
        forall|i: int| 0 <= i < spec_public_attrs(attrs).len()
            ==> exists|j: int| 0 <= j < attrs.len() && attrs[j] == #[trigger] spec_public_attrs(
                attrs,
            )[i],
        (forall|i: int| 0 <= i < attrs.len() ==> !spec_is_private(#[trigger] attrs[i].0))
            ==> spec_public_attrs(attrs) == attrs,
    decreases attrs.len(),
{
    if attrs.len() > 0 {
        law_filter_strips_private(attrs.drop_last());
        let rest = spec_public_attrs(attrs.drop_last());
        assert forall|i: int| 0 <= i < spec_public_attrs(attrs).len() implies exists|j: int|
            0 <= j < attrs.len() && attrs[j] == #[trigger] spec_public_attrs(attrs)[i] by {
            if i < rest.len() {
                let j = choose|j: int|
                    0 <= j < attrs.drop_last().len() && attrs.drop_last()[j] == rest[i];
                assert(attrs[j] == spec_public_attrs(attrs)[i]);
            } else {
                assert(attrs[attrs.len() - 1] == spec_public_attrs(attrs)[i]);
            }
        }
        if forall|i: int| 0 <= i < attrs.len() ==> !spec_is_private(#[trigger] attrs[i].0) {
            assert(forall|i: int| 0 <= i < attrs.drop_last().len()
                ==> !spec_is_private(#[trigger] attrs.drop_last()[i].0));
            assert(spec_public_attrs(attrs) =~= attrs);
        }
    } else {
        if forall|i: int| 0 <= i < attrs.len() ==> !spec_is_private(#[trigger] attrs[i].0) {
            assert(spec_public_attrs(attrs) =~= attrs);
        }
    }
}

/// Whether any attribute of a finished span is internal-only; when none is,
/// the span is forwarded to the export sink untouched.
#[verifier::loop_isolation(false)]
pub fn has_private_attribute(attrs: &Vec<(String, AttrValue)>) -> (r: bool)
    ensures
        r == exists|i: int|
            0 <= i < attrs@.len() && spec_is_private(#[trigger] attrs_view(attrs@)[i].0),
{
    let mut i: usize = 0;
    while i < attrs.len()
        invariant
            i <= attrs.len(),
            forall|j: int| 0 <= j < i ==> !spec_is_private(#[trigger] attrs_view(attrs@)[j].0),
        decreases attrs.len() - i,
    {
        if str_starts_with(attrs[i].0.as_str(), "apollo_private.") {
            assert(spec_is_private(attrs_view(attrs@)[i as int].0));
            return true;
        }
        i += 1;
    }
    false
}

/// Builds the filtered copy of a finished span's attributes: exactly the
/// ones outside the reserved prefix, in their original order. The export
/// wrapper forwards this copy in place of the original when any attribute
/// was internal.
#[verifier::loop_isolation(false)]
pub fn filter_span_attributes(attrs: &Vec<(String, AttrValue)>) -> (r: Vec<(String, AttrValue)>)
    ensures
        attrs_view(r@) == spec_public_attrs(attrs_view(attrs@)),
{
    let mut out: Vec<(String, AttrValue)> = Vec::new();
    let mut i: usize = 0;
    proof {
        assert(attrs_view(attrs@).subrange(0, 0) =~= Seq::<(Seq<char>, AttrValueV)>::empty());
        assert(attrs_view(out@) =~= spec_public_attrs(attrs_view(attrs@).subrange(0, 0)));
    }
    while i < attrs.len()
        invariant
            i <= attrs.len(),
            attrs_view(out@) == spec_public_attrs(attrs_view(attrs@).subrange(0, i as int)),
        decreases attrs.len() - i,
    {
        let ghost pre = attrs_view(attrs@).subrange(0, i as int);
        let ghost ext = attrs_view(attrs@).subrange(0, i + 1);
        proof {
            assert(ext.drop_last() =~= pre);
            assert(ext.last() == attrs_view(attrs@)[i as int]);
        }
        if !str_starts_with(attrs[i].0.as_str(), "apollo_private.") {
            let name = attrs[i].0.clone();
            let value = match &attrs[i].1 {
                AttrValue::Text(s) => AttrValue::Text(s.clone()),
                AttrValue::Int(n) => AttrValue::Int(*n),
                AttrValue::Flag(b) => AttrValue::Flag(*b),
            };
            let ghost pre_out = out@;
            out.push((name, value));
            proof {
                assert(out@.last().0@ == attrs@[i as int].0@);
                assert(out@.last().1@ == attrs@[i as int].1@);
                assert(attrs_view(out@) =~= spec_public_attrs(ext)) by {
                    assert(forall|k: int| 0 <= k < pre_out.len() ==> out@[k] == pre_out[k]);
                }
            }
        } else {
            proof {
                assert(attrs_view(out@) =~= spec_public_attrs(ext));
            }
        }
        i += 1;
    }
    proof {
        assert(attrs_view(attrs@).subrange(0, attrs@.len() as int) =~= attrs_view(attrs@));
    }
    out
}

} // verus!
