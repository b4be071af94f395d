//! Resolution of the per-subgraph forwarding policy.
//!
//! The policy of one subgraph is the policy for all subgraphs combined with
//! the override for that name: list-valued parts are extended (global
//! entries first, duplicates kept), section-valued parts are merged field by
//! field with the override winning where it is present. Resolution reads
//! static configuration alone, never per-request data.

use vstd::prelude::*;

use crate::attributes::{
    seq_views, AttributesForwardConf, AttributesForwardConfV, BodyForward, ContextForward,
    ContextForwardV, ErrorsForward, ErrorsForwardV, HeaderForward, SectionForward, SectionForwardV,
    StaticAttr, StaticAttrV,
};
use crate::text::str_eq;

verus! {

// ---------------------------------------------------------------------------
// The merge, stated.
// ---------------------------------------------------------------------------

/// An optional list, read as a list.
pub open spec fn opt_list_or_empty<T>(o: Option<Seq<T>>) -> Seq<T> {
    match o {
        Some(s) => s,
        None => Seq::empty(),
    }
}

/// Extends the global list with the override's entries, global ones first;
/// an empty combination collapses to nothing.
pub open spec fn spec_extend_lists<T>(a: Option<Seq<T>>, b: Option<Seq<T>>) -> Option<Seq<T>> {
    let c = opt_list_or_empty(a) + opt_list_or_empty(b);
    if c.len() > 0 {
        Some(c)
    } else {
        None
    }
}

/// An optional section, read as a section.
pub open spec fn section_or_empty(o: Option<SectionForwardV>) -> SectionForwardV {
    match o {
        Some(s) => s,
        None => SectionForwardV { header: None, body: None },
    }
}

/// Merges two sections field by field: where the override sets a field it
/// wins, where it leaves one unset the global value stays.
pub open spec fn spec_merge_section(a: SectionForwardV, b: SectionForwardV) -> SectionForwardV {
    SectionForwardV {
        header: if b.header is Some {
            b.header
        } else {
            a.header
        },
        body: if b.body is Some {
            b.body
        } else {
            a.body
        },
    }
}

/// A section with nothing to read collapses to nothing.
pub open spec fn spec_section_opt(s: SectionForwardV) -> Option<SectionForwardV> {
    if s.header is Some || s.body is Some {
        Some(s)
    } else {
        None
    }
}

/// An optional errors policy, read as one.
pub open spec fn errors_or_empty(o: Option<ErrorsForwardV>) -> ErrorsForwardV {
    match o {
        Some(e) => e,
        None => ErrorsForwardV { include_messages: false, extensions: None },
    }
}

/// Merges two errors policies: messages are included when either side asks,
/// the extension list is the override's where it sets one.
pub open spec fn spec_merge_errors(a: ErrorsForwardV, b: ErrorsForwardV) -> ErrorsForwardV {
    ErrorsForwardV {
        include_messages: a.include_messages || b.include_messages,
        extensions: if b.extensions is Some {
            b.extensions
        } else {
            a.extensions
        },
    }
}

/// An errors policy with nothing to read collapses to nothing.
pub open spec fn spec_errors_opt(e: ErrorsForwardV) -> Option<ErrorsForwardV> {
    if e.extensions is Some || e.include_messages {
        Some(e)
    } else {
        None
    }
}

/// The override for this subgraph name: the first entry carrying it.
pub open spec fn spec_subgraph_lookup(
    subgraphs: Seq<(Seq<char>, AttributesForwardConfV)>,
    name: Seq<char>,
) -> Option<AttributesForwardConfV>
    decreases subgraphs.len(),
{
    if subgraphs.len() == 0 {
        None
    } else if subgraphs[0].0 == name {
        Some(subgraphs[0].1)
    } else {
        spec_subgraph_lookup(subgraphs.drop_first(), name)
    }
}

/// An optional policy, read as a policy.
pub open spec fn conf_or_empty(o: Option<AttributesForwardConfV>) -> AttributesForwardConfV {
    match o {
        Some(c) => c,
        None => AttributesForwardConfV {
            insert: None,
            request: None,
            response: None,
            errors: None,
            context: None,
        },
    }
}

/// The resolved policy of one subgraph: a function of the static
/// configuration and the subgraph's name alone.
pub open spec fn spec_resolve_subgraph_conf(
    all: Option<AttributesForwardConfV>,
    subgraphs: Seq<(Seq<char>, AttributesForwardConfV)>,
    name: Seq<char>,
) -> AttributesForwardConfV {
    let g = conf_or_empty(all);
    let s = conf_or_empty(spec_subgraph_lookup(subgraphs, name));
    AttributesForwardConfV {
        insert: spec_extend_lists(g.insert, s.insert),
        request: spec_section_opt(
            spec_merge_section(section_or_empty(g.request), section_or_empty(s.request)),
        ),
        response: spec_section_opt(
            spec_merge_section(section_or_empty(g.response), section_or_empty(s.response)),
        ),
        errors: spec_errors_opt(
            spec_merge_errors(errors_or_empty(g.errors), errors_or_empty(s.errors)),
        ),
        context: spec_extend_lists(g.context, s.context),
    }
}

// ---------------------------------------------------------------------------
// Laws of the merge.
// ---------------------------------------------------------------------------

/// Extending keeps every global entry, in place, ahead of every entry of
/// the override: the resolved lists are exactly the concatenations.
pub proof fn law_extend_preserves_entries(
    all: Option<AttributesForwardConfV>,
    subgraphs: Seq<(Seq<char>, AttributesForwardConfV)>,
    name: Seq<char>,
)
    ensures
        opt_list_or_empty(spec_resolve_subgraph_conf(all, subgraphs, name).insert)
            == opt_list_or_empty(conf_or_empty(all).insert) + opt_list_or_empty(
            conf_or_empty(spec_subgraph_lookup(subgraphs, name)).insert,
        ),
        opt_list_or_empty(spec_resolve_subgraph_conf(all, subgraphs, name).context)
            == opt_list_or_empty(conf_or_empty(all).context) + opt_list_or_empty(
            conf_or_empty(spec_subgraph_lookup(subgraphs, name)).context,
        ),
{
    let g = conf_or_empty(all);
    let s = conf_or_empty(spec_subgraph_lookup(subgraphs, name));
    assert(opt_list_or_empty(spec_extend_lists(g.insert, s.insert)) =~= opt_list_or_empty(g.insert)
        + opt_list_or_empty(s.insert));
    assert(opt_list_or_empty(spec_extend_lists(g.context, s.context)) =~= opt_list_or_empty(
        g.context,
    ) + opt_list_or_empty(s.context));
}

/// Merging a section override in a second time changes nothing.
pub proof fn law_merge_section_idempotent(a: SectionForwardV, b: SectionForwardV)
    ensures
        spec_merge_section(spec_merge_section(a, b), b) == spec_merge_section(a, b),
{
}

/// Section merging is associative.
pub proof fn law_merge_section_associative(
    a: SectionForwardV,
    b: SectionForwardV,
    c: SectionForwardV,
)
    ensures
        spec_merge_section(spec_merge_section(a, b), c) == spec_merge_section(
            a,
            spec_merge_section(b, c),
        ),
{
}

/// Merging an errors override in a second time changes nothing.
pub proof fn law_merge_errors_idempotent(a: ErrorsForwardV, b: ErrorsForwardV)
    ensures
        spec_merge_errors(spec_merge_errors(a, b), b) == spec_merge_errors(a, b),
{
}

/// Errors merging is associative.
pub proof fn law_merge_errors_associative(a: ErrorsForwardV, b: ErrorsForwardV, c: ErrorsForwardV)
    ensures
        spec_merge_errors(spec_merge_errors(a, b), c) == spec_merge_errors(
            a,
            spec_merge_errors(b, c),
        ),
{
}

// ---------------------------------------------------------------------------
// The merge, executed.
// ---------------------------------------------------------------------------

/// The view of an optional borrowed list.
pub open spec fn opt_ref_list_view<T: View>(o: Option<&Vec<T>>) -> Option<Seq<T::V>> {
    match o {
        Some(v) => Some(seq_views(v@)),
        None => None,
    }
}

/// Copies an optional string, keeping its view.
fn clone_opt_string(o: &Option<String>) -> (r: Option<String>)
    ensures
        crate::attributes::opt_str_view(r) == crate::attributes::opt_str_view(*o),
{
    match o {
        Some(s) => Some(s.clone()),
        None => None,
    }
}

/// Appends copies of the fixed attributes to `out`, keeping their views.
#[verifier::loop_isolation(false)]
fn push_static_clones(out: &mut Vec<StaticAttr>, src: &Vec<StaticAttr>)
    ensures
        seq_views(final(out)@) == seq_views(old(out)@) + seq_views(src@),
{
    let ghost base = seq_views(old(out)@);
    let mut i: usize = 0;
    proof {
        assert(base + seq_views(src@).subrange(0, 0) =~= base);
    }
    while i < src.len()
        invariant
            i <= src.len(),
            seq_views(out@) == base + seq_views(src@).subrange(0, i as int),
        decreases src.len() - i,
    {
        let item = StaticAttr { name: src[i].name.clone(), value: src[i].value.clone() };
        let ghost item_view = item@;
        let ghost pre_out = out@;
        out.push(item);
        proof {
            assert(item_view == src@[i as int]@);
            let target = base + seq_views(src@).subrange(0, i + 1);
            assert(pre_out.len() == base.len() + i);
            assert(out@.len() == pre_out.len() + 1);
            assert(seq_views(out@).len() == target.len());
            assert forall|k: int| 0 <= k < target.len() implies seq_views(out@)[k] == target[k] by {
                assert(seq_views(out@)[k] == out@[k]@);
                if k < pre_out.len() {
                    assert(out@[k] == pre_out[k]);
                    assert(seq_views(pre_out)[k] == pre_out[k]@);
                    assert(target[k] == (base + seq_views(src@).subrange(0, i as int))[k]);
                } else {
                    assert(out@[k] == out@.last());
                    assert(out@[k]@ == item_view);
                    assert(target[k] == seq_views(src@)[i as int]);
                }
            }
            assert(seq_views(out@) =~= target);
        }
        i += 1;
    }
    proof {
        assert(seq_views(src@).subrange(0, src@.len() as int) =~= seq_views(src@));
    }
}

/// Appends copies of the context forwards to `out`, keeping their views.
#[verifier::loop_isolation(false)]
fn push_context_clones(out: &mut Vec<ContextForward>, src: &Vec<ContextForward>)
    ensures
        seq_views(final(out)@) == seq_views(old(out)@) + seq_views(src@),
{
    let ghost base = seq_views(old(out)@);
    let mut i: usize = 0;
    proof {
        assert(base + seq_views(src@).subrange(0, 0) =~= base);
    }
    while i < src.len()
        invariant
            i <= src.len(),
            seq_views(out@) == base + seq_views(src@).subrange(0, i as int),
        decreases src.len() - i,
    {
        let item = ContextForward {
            named: src[i].named.clone(),
            rename: clone_opt_string(&src[i].rename),
            default: clone_opt_string(&src[i].default),
        };
        let ghost item_view = item@;
        let ghost pre_out = out@;
        out.push(item);
        proof {
            assert(item_view == src@[i as int]@);
            let target = base + seq_views(src@).subrange(0, i + 1);
            assert(pre_out.len() == base.len() + i);
            assert(out@.len() == pre_out.len() + 1);
            assert(seq_views(out@).len() == target.len());
            assert forall|k: int| 0 <= k < target.len() implies seq_views(out@)[k] == target[k] by {
                assert(seq_views(out@)[k] == out@[k]@);
                if k < pre_out.len() {
                    assert(out@[k] == pre_out[k]);
                    assert(seq_views(pre_out)[k] == pre_out[k]@);
                    assert(target[k] == (base + seq_views(src@).subrange(0, i as int))[k]);
                } else {
                    assert(out@[k] == out@.last());
                    assert(out@[k]@ == item_view);
                    assert(target[k] == seq_views(src@)[i as int]);
                }
            }
            assert(seq_views(out@) =~= target);
        }
        i += 1;
    }
    proof {
        assert(seq_views(src@).subrange(0, src@.len() as int) =~= seq_views(src@));
    }
}

/// Copies a list of header forwards, keeping its views.
#[verifier::loop_isolation(false)]
fn clone_header_list(src: &Vec<HeaderForward>) -> (r: Vec<HeaderForward>)
    ensures
        seq_views(r@) == seq_views(src@),
{
    let mut out: Vec<HeaderForward> = Vec::new();
    let mut i: usize = 0;
    proof {
        assert(seq_views(out@) =~= seq_views(src@).subrange(0, 0));
    }
    while i < src.len()
        invariant
            i <= src.len(),
            seq_views(out@) == seq_views(src@).subrange(0, i as int),
        decreases src.len() - i,
    {
        out.push(
            HeaderForward {
                named: src[i].named.clone(),
                rename: clone_opt_string(&src[i].rename),
                default: clone_opt_string(&src[i].default),
            },
        );
        proof {
            assert(seq_views(out@) =~= seq_views(src@).subrange(0, i + 1));
        }
        i += 1;
    }
    proof {
        assert(seq_views(src@).subrange(0, src@.len() as int) =~= seq_views(src@));
    }
    out
}

/// Copies a list of body forwards, keeping its views.
#[verifier::loop_isolation(false)]
fn clone_body_list(src: &Vec<BodyForward>) -> (r: Vec<BodyForward>)
    ensures
        seq_views(r@) == seq_views(src@),
{
    let mut out: Vec<BodyForward> = Vec::new();
    let mut i: usize = 0;
    proof {
        assert(seq_views(out@) =~= seq_views(src@).subrange(0, 0));
    }
    while i < src.len()
        invariant
            i <= src.len(),
            seq_views(out@) == seq_views(src@).subrange(0, i as int),
        decreases src.len() - i,
    {
        let cloned_path = src[i].path.clone();
        proof {
            assert(crate::json::path_view(cloned_path@) =~= crate::json::path_view(src@[i as int].path@));
        }
        out.push(
            BodyForward {
                path: cloned_path,
                name: src[i].name.clone(),
                default: clone_opt_string(&src[i].default),
            },
        );
        proof {
            assert(seq_views(out@) =~= seq_views(src@).subrange(0, i + 1));
        }
        i += 1;
    }
    proof {
        assert(seq_views(src@).subrange(0, src@.len() as int) =~= seq_views(src@));
    }
    out
}

/// Extends the global fixed attributes with the override's.
fn extend_static_lists(a: Option<&Vec<StaticAttr>>, b: Option<&Vec<StaticAttr>>) -> (r: Option<
    Vec<StaticAttr>,
>)
    ensures
        crate::attributes::opt_list_view(r) == spec_extend_lists::<StaticAttrV>(
            opt_ref_list_view(a),
            opt_ref_list_view(b),
        ),
{
    let mut out: Vec<StaticAttr> = Vec::new();
    if let Some(v) = a {
        push_static_clones(&mut out, v);
    }
    if let Some(v) = b {
        push_static_clones(&mut out, v);
    }
    proof {
        assert(seq_views(out@) =~= opt_list_or_empty(opt_ref_list_view(a)) + opt_list_or_empty(
            opt_ref_list_view(b),
        ));
    }
    if out.len() == 0 {
        None
    } else {
        Some(out)
    }
}

/// Extends the global context forwards with the override's.
fn extend_context_lists(a: Option<&Vec<ContextForward>>, b: Option<&Vec<ContextForward>>) -> (r:
    Option<Vec<ContextForward>>)
    ensures
        crate::attributes::opt_list_view(r) == spec_extend_lists::<ContextForwardV>(
            opt_ref_list_view(a),
            opt_ref_list_view(b),
        ),
{
    let mut out: Vec<ContextForward> = Vec::new();
    if let Some(v) = a {
        push_context_clones(&mut out, v);
    }
    if let Some(v) = b {
        push_context_clones(&mut out, v);
    }
    proof {
        assert(seq_views(out@) =~= opt_list_or_empty(opt_ref_list_view(a)) + opt_list_or_empty(
            opt_ref_list_view(b),
        ));
    }
    if out.len() == 0 {
        None
    } else {
        Some(out)
    }
}

/// The view of an optional borrowed section.
pub open spec fn opt_ref_section_view(o: Option<&SectionForward>) -> Option<SectionForwardV> {
    match o {
        Some(s) => Some(s@),
        None => None,
    }
}

/// Merges the request or response sections of the two policies.
fn merge_sections(a: Option<&SectionForward>, b: Option<&SectionForward>) -> (r: Option<
    SectionForward,
>)
    ensures
        (match r {
            Some(s) => Some(s@),
            None => None,
        }) == spec_section_opt(
            spec_merge_section(
                section_or_empty(opt_ref_section_view(a)),
                section_or_empty(opt_ref_section_view(b)),
            ),
        ),
{
    let b_header: Option<&Vec<HeaderForward>> = match b {
        Some(s) => s.header.as_ref(),
        None => None,
    };
    let a_header: Option<&Vec<HeaderForward>> = match a {
        Some(s) => s.header.as_ref(),
        None => None,
    };
    let header_src = if b_header.is_some() {
        b_header
    } else {
        a_header
    };
    let header = match header_src {
        Some(h) => Some(clone_header_list(h)),
        None => None,
    };
    let b_body: Option<&Vec<BodyForward>> = match b {
        Some(s) => s.body.as_ref(),
        None => None,
    };
    let a_body: Option<&Vec<BodyForward>> = match a {
        Some(s) => s.body.as_ref(),
        None => None,
    };
    let body_src = if b_body.is_some() {
        b_body
    } else {
        a_body
    };
    let body = match body_src {
        Some(bs) => Some(clone_body_list(bs)),
        None => None,
    };
    if header.is_some() || body.is_some() {
        Some(SectionForward { header, body })
    } else {
        None
    }
}

/// Merges the error policies of the two configurations.
fn merge_errors(a: Option<&ErrorsForward>, b: Option<&ErrorsForward>) -> (r: Option<ErrorsForward>)
    ensures
        (match r {
            Some(e) => Some(e@),
            None => None,
        }) == spec_errors_opt(
            spec_merge_errors(
                errors_or_empty(
                    match a {
                        Some(e) => Some(e@),
                        None => None,
                    },
                ),
                errors_or_empty(
                    match b {
                        Some(e) => Some(e@),
                        None => None,
                    },
                ),
            ),
        ),
{
    let include_messages = (match a {
        Some(e) => e.include_messages,
        None => false,
    }) || (match b {
        Some(e) => e.include_messages,
        None => false,
    });
    let b_ext: Option<&Vec<BodyForward>> = match b {
        Some(e) => e.extensions.as_ref(),
        None => None,
    };
    let a_ext: Option<&Vec<BodyForward>> = match a {
        Some(e) => e.extensions.as_ref(),
        None => None,
    };
    let ext_src = if b_ext.is_some() {
        b_ext
    } else {
        a_ext
    };
    let extensions = match ext_src {
        Some(x) => Some(clone_body_list(x)),
        None => None,
    };
    if extensions.is_some() || include_messages {
        Some(ErrorsForward { include_messages, extensions })
    } else {
        None
    }
}

/// Finds the override for this subgraph name.
#[verifier::loop_isolation(false)]
fn find_subgraph<'a>(
    subgraphs: &'a Vec<(String, AttributesForwardConf)>,
    name: &str,
) -> (r: Option<&'a AttributesForwardConf>)
    ensures
        match r {
            Some(c) => spec_subgraph_lookup(
                subgraphs@.map_values(|e: (String, AttributesForwardConf)| (e.0@, e.1@)),
                name@,
            ) == Some(c@),
            None => spec_subgraph_lookup(
                subgraphs@.map_values(|e: (String, AttributesForwardConf)| (e.0@, e.1@)),
                name@,
            ) is None,
        },
{
    let ghost view = subgraphs@.map_values(|e: (String, AttributesForwardConf)| (e.0@, e.1@));
    let mut i: usize = 0;
    proof {
        assert(view.subrange(0, view.len() as int) =~= view);
    }
    while i < subgraphs.len()
        invariant
            i <= subgraphs.len(),
            spec_subgraph_lookup(view, name@) == spec_subgraph_lookup(
                view.subrange(i as int, view.len() as int),
                name@,
            ),
        decreases subgraphs.len() - i,
    {
        proof {
            let rest = view.subrange(i as int, view.len() as int);
            assert(rest[0] == view[i as int]);
            assert(rest.drop_first() =~= view.subrange(i + 1, view.len() as int));
        }
        if str_eq(subgraphs[i].0.as_str(), name) {
            return Some(&subgraphs[i].1);
        }
        i += 1;
    }
    proof {
        assert(view.subrange(view.len() as int, view.len() as int)
            =~= Seq::<(Seq<char>, AttributesForwardConfV)>::empty());
    }
    None
}

impl crate::attributes::SubgraphAttributesConf {
    /// Resolves the policy for one subgraph name: the global policy extended
    /// or overridden by that subgraph's entry. The result depends on the
    /// static configuration and the name alone, so resolving twice yields
    /// the same policy.
    pub fn resolve_for_subgraph(&self, name: &str) -> (r: AttributesForwardConf)
        ensures
            r@ == spec_resolve_subgraph_conf(self@.all, self@.subgraphs, name@),
    {
        let sub: Option<&AttributesForwardConf> = find_subgraph(&self.subgraphs, name);
        let all: Option<&AttributesForwardConf> = self.all.as_ref();
        let insert = extend_static_lists(
            match all {
                Some(c) => c.insert.as_ref(),
                None => None,
            },
            match sub {
                Some(c) => c.insert.as_ref(),
                None => None,
            },
        );
        let context = extend_context_lists(
            match all {
                Some(c) => c.context.as_ref(),
                None => None,
            },
            match sub {
                Some(c) => c.context.as_ref(),
                None => None,
            },
        );
        let request = merge_sections(
            match all {
                Some(c) => c.request.as_ref(),
                None => None,
            },
            match sub {
                Some(c) => c.request.as_ref(),
                None => None,
            },
        );
        let response = merge_sections(
            match all {
                Some(c) => c.response.as_ref(),
                None => None,
            },
            match sub {
                Some(c) => c.response.as_ref(),
                None => None,
            },
        );
        let errors = merge_errors(
            match all {
                Some(c) => c.errors.as_ref(),
                None => None,
            },
            match sub {
                Some(c) => c.errors.as_ref(),
                None => None,
            },
        );
        AttributesForwardConf { insert, request, response, errors, context }
    }
}

} // verus!
