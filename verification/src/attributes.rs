//! Declarative attribute forwarding: which headers, body paths, context keys
//! and error fields become metric attributes, with per-subgraph overrides.
//!
//! Extraction is a pure projection: a declared entry either finds its value,
//! falls back to its declared default, or is omitted entirely. The
//! per-subgraph policy is the global policy extended (lists) or overridden
//! field by field (sections), resolved from static configuration alone.

use vstd::prelude::*;

use crate::json::{path_view, spec_attr_text, spec_resolve, JsonValue, PathSegV, PathSegment};
use crate::text::str_eq;

verus! {

/// A fixed attribute added to every observation.
pub struct StaticAttr {
    pub name: String,
    pub value: String,
}

/// Forward one header: under its own name or a rename, with an optional
/// default when the header is absent.
pub struct HeaderForward {
    pub named: String,
    pub rename: Option<String>,
    pub default: Option<String>,
}

/// Forward the value a body path leads to, under the given attribute name,
/// with an optional default when the path resolves to nothing.
pub struct BodyForward {
    pub path: Vec<PathSegment>,
    pub name: String,
    pub default: Option<String>,
}

/// Forward one request-context entry, as a header forward does.
pub struct ContextForward {
    pub named: String,
    pub rename: Option<String>,
    pub default: Option<String>,
}

/// The forwards that read one side of an exchange: its headers and its body.
pub struct SectionForward {
    pub header: Option<Vec<HeaderForward>>,
    pub body: Option<Vec<BodyForward>>,
}

/// The forwards that read a downstream error.
pub struct ErrorsForward {
    pub include_messages: bool,
    pub extensions: Option<Vec<BodyForward>>,
}

/// The full attribute-forwarding policy of one boundary.
pub struct AttributesForwardConf {
    pub insert: Option<Vec<StaticAttr>>,
    pub request: Option<SectionForward>,
    pub response: Option<SectionForward>,
    pub errors: Option<ErrorsForward>,
    pub context: Option<Vec<ContextForward>>,
}

/// The subgraph-boundary policy: one for all subgraphs, plus per-name
/// overrides.
pub struct SubgraphAttributesConf {
    pub all: Option<AttributesForwardConf>,
    pub subgraphs: Vec<(String, AttributesForwardConf)>,
}

// ---------------------------------------------------------------------------
// Views.
// ---------------------------------------------------------------------------

/// The view of an optional string.
pub open spec fn opt_str_view(o: Option<String>) -> Option<Seq<char>> {
    match o {
        Some(s) => Some(s@),
        None => None,
    }
}

#[verifier::ext_equal]
pub struct StaticAttrV {
    pub name: Seq<char>,
    pub value: Seq<char>,
}

#[verifier::ext_equal]
pub struct HeaderForwardV {
    pub named: Seq<char>,
    pub rename: Option<Seq<char>>,
    pub default: Option<Seq<char>>,
}

#[verifier::ext_equal]
pub struct BodyForwardV {
    pub path: Seq<PathSegV>,
    pub name: Seq<char>,
    pub default: Option<Seq<char>>,
}

#[verifier::ext_equal]
pub struct ContextForwardV {
    pub named: Seq<char>,
    pub rename: Option<Seq<char>>,
    pub default: Option<Seq<char>>,
}

#[verifier::ext_equal]
pub struct SectionForwardV {
    pub header: Option<Seq<HeaderForwardV>>,
    pub body: Option<Seq<BodyForwardV>>,
}

#[verifier::ext_equal]
pub struct ErrorsForwardV {
    pub include_messages: bool,
    pub extensions: Option<Seq<BodyForwardV>>,
}

#[verifier::ext_equal]
pub struct AttributesForwardConfV {
    pub insert: Option<Seq<StaticAttrV>>,
    pub request: Option<SectionForwardV>,
    pub response: Option<SectionForwardV>,
    pub errors: Option<ErrorsForwardV>,
    pub context: Option<Seq<ContextForwardV>>,
}

#[verifier::ext_equal]
pub struct SubgraphAttributesConfV {
    pub all: Option<AttributesForwardConfV>,
    pub subgraphs: Seq<(Seq<char>, AttributesForwardConfV)>,
}

impl View for StaticAttr {
    type V = StaticAttrV;

    open spec fn view(&self) -> StaticAttrV {
        StaticAttrV { name: self.name@, value: self.value@ }
    }
}

impl View for HeaderForward {
    type V = HeaderForwardV;

    open spec fn view(&self) -> HeaderForwardV {
        HeaderForwardV {
            named: self.named@,
            rename: opt_str_view(self.rename),
            default: opt_str_view(self.default),
        }
    }
}

impl View for BodyForward {
    type V = BodyForwardV;

    open spec fn view(&self) -> BodyForwardV {
        BodyForwardV {
            path: path_view(self.path@),
            name: self.name@,
            default: opt_str_view(self.default),
        }
    }
}

impl View for ContextForward {
    type V = ContextForwardV;

    open spec fn view(&self) -> ContextForwardV {
        ContextForwardV {
            named: self.named@,
            rename: opt_str_view(self.rename),
            default: opt_str_view(self.default),
        }
    }
}

/// The views of a sequence of viewable values.
pub open spec fn seq_views<T: View>(s: Seq<T>) -> Seq<T::V> {
    s.map_values(|x: T| x@)
}

/// The view of an optional list of viewable values.
pub open spec fn opt_list_view<T: View>(o: Option<Vec<T>>) -> Option<Seq<T::V>> {
    match o {
        Some(items) => Some(seq_views(items@)),
        None => None,
    }
}

impl View for SectionForward {
    type V = SectionForwardV;

    open spec fn view(&self) -> SectionForwardV {
        SectionForwardV {
            header: opt_list_view(self.header),
            body: opt_list_view(self.body),
        }
    }
}

impl View for ErrorsForward {
    type V = ErrorsForwardV;

    open spec fn view(&self) -> ErrorsForwardV {
        ErrorsForwardV {
            include_messages: self.include_messages,
            extensions: opt_list_view(self.extensions),
        }
    }
}

impl View for AttributesForwardConf {
    type V = AttributesForwardConfV;

    open spec fn view(&self) -> AttributesForwardConfV {
        AttributesForwardConfV {
            insert: opt_list_view(self.insert),
            request: match self.request {
                Some(s) => Some(s@),
                None => None,
            },
            response: match self.response {
                Some(s) => Some(s@),
                None => None,
            },
            errors: match self.errors {
                Some(e) => Some(e@),
                None => None,
            },
            context: opt_list_view(self.context),
        }
    }
}

impl View for SubgraphAttributesConf {
    type V = SubgraphAttributesConfV;

    open spec fn view(&self) -> SubgraphAttributesConfV {
        SubgraphAttributesConfV {
            all: match self.all {
                Some(a) => Some(a@),
                None => None,
            },
            subgraphs: self.subgraphs@.map_values(
                |e: (String, AttributesForwardConf)| (e.0@, e.1@),
            ),
        }
    }
}

// ---------------------------------------------------------------------------
// Extraction.
// ---------------------------------------------------------------------------

/// The value of the first header with this name, if any.
pub open spec fn spec_header_lookup(
    headers: Seq<(String, String)>,
    name: Seq<char>,
) -> Option<Seq<char>>
    decreases headers.len(),
{
    if headers.len() == 0 {
        None
    } else if headers[0].0@ == name {
        Some(headers[0].1@)
    } else {
        spec_header_lookup(headers.drop_first(), name)
    }
}

/// Appends an optional attribute.
pub open spec fn push_opt(
    attrs: Seq<(Seq<char>, Seq<char>)>,
    o: Option<(Seq<char>, Seq<char>)>,
) -> Seq<(Seq<char>, Seq<char>)> {
    match o {
        Some(p) => attrs.push(p),
        None => attrs,
    }
}

/// The attribute one header forward yields: the header's value, else the
/// declared default, else nothing; the key is the rename when one is given.
pub open spec fn spec_header_attr(
    c: HeaderForwardV,
    headers: Seq<(String, String)>,
) -> Option<(Seq<char>, Seq<char>)> {
    let key = match c.rename {
        Some(r) => r,
        None => c.named,
    };
    match spec_header_lookup(headers, c.named) {
        Some(v) => Some((key, v)),
        None => match c.default {
            Some(d) => Some((key, d)),
            None => None,
        },
    }
}

/// The attributes of a list of header forwards, in declaration order.
pub open spec fn spec_header_attrs(
    confs: Seq<HeaderForwardV>,
    headers: Seq<(String, String)>,
) -> Seq<(Seq<char>, Seq<char>)>
    decreases confs.len(),
{
    if confs.len() == 0 {
        Seq::empty()
    } else {
        push_opt(spec_header_attrs(confs.drop_last(), headers), spec_header_attr(confs.last(), headers))
    }
}

/// The attribute one body forward yields: the value its path leads to, else
/// the declared default, else nothing.
pub open spec fn spec_body_attr(c: BodyForwardV, body: JsonValue) -> Option<(Seq<char>, Seq<char>)> {
    match spec_resolve(body, c.path) {
        Some(v) => Some((c.name, spec_attr_text(v))),
        None => match c.default {
            Some(d) => Some((c.name, d)),
            None => None,
        },
    }
}

/// The attributes of a list of body forwards, in declaration order.
pub open spec fn spec_body_attrs(
    confs: Seq<BodyForwardV>,
    body: JsonValue,
) -> Seq<(Seq<char>, Seq<char>)>
    decreases confs.len(),
{
    if confs.len() == 0 {
        Seq::empty()
    } else {
        push_opt(spec_body_attrs(confs.drop_last(), body), spec_body_attr(confs.last(), body))
    }
}

/// The attribute one context forward yields.
pub open spec fn spec_context_attr(
    c: ContextForwardV,
    entries: Seq<(String, String)>,
) -> Option<(Seq<char>, Seq<char>)> {
    let key = match c.rename {
        Some(r) => r,
        None => c.named,
    };
    match spec_header_lookup(entries, c.named) {
        Some(v) => Some((key, v)),
        None => match c.default {
            Some(d) => Some((key, d)),
            None => None,
        },
    }
}

/// The attributes of a list of context forwards, in declaration order.
pub open spec fn spec_context_attrs(
    confs: Seq<ContextForwardV>,
    entries: Seq<(String, String)>,
) -> Seq<(Seq<char>, Seq<char>)>
    decreases confs.len(),
{
    if confs.len() == 0 {
        Seq::empty()
    } else {
        push_opt(
            spec_context_attrs(confs.drop_last(), entries),
            spec_context_attr(confs.last(), entries),
        )
    }
}

/// The fixed attributes, in declaration order.
pub open spec fn spec_insert_attrs(confs: Seq<StaticAttrV>) -> Seq<(Seq<char>, Seq<char>)> {
    confs.map_values(|c: StaticAttrV| (c.name, c.value))
}

/// What one section (request or response) contributes: its header forwards,
/// then its body forwards.
pub open spec fn spec_section_attrs(
    s: Option<SectionForwardV>,
    headers: Seq<(String, String)>,
    body: JsonValue,
) -> Seq<(Seq<char>, Seq<char>)> {
    match s {
        Some(sec) => {
            let hs = match sec.header {
                Some(confs) => spec_header_attrs(confs, headers),
                None => Seq::empty(),
            };
            let bs = match sec.body {
                Some(confs) => spec_body_attrs(confs, body),
                None => Seq::empty(),
            };
            hs + bs
        },
        None => Seq::empty(),
    }
}

/// What the request side of the policy extracts: the fixed attributes, then
/// the request section's.
pub open spec fn spec_request_attrs(
    conf: AttributesForwardConfV,
    headers: Seq<(String, String)>,
    body: JsonValue,
) -> Seq<(Seq<char>, Seq<char>)> {
    (match conf.insert {
        Some(confs) => spec_insert_attrs(confs),
        None => Seq::empty(),
    }) + spec_section_attrs(conf.request, headers, body)
}

/// What the response side of the policy extracts.
pub open spec fn spec_response_attrs(
    conf: AttributesForwardConfV,
    headers: Seq<(String, String)>,
    body: JsonValue,
) -> Seq<(Seq<char>, Seq<char>)> {
    spec_section_attrs(conf.response, headers, body)
}

/// What the policy reads from the request context.
pub open spec fn spec_context_attrs_of_conf(
    conf: AttributesForwardConfV,
    entries: Seq<(String, String)>,
) -> Seq<(Seq<char>, Seq<char>)> {
    match conf.context {
        Some(confs) => spec_context_attrs(confs, entries),
        None => Seq::empty(),
    }
}

/// What the policy reads from a downstream error: the message when messages
/// are included, then the declared extension fields.
pub open spec fn spec_error_attrs(
    conf: AttributesForwardConfV,
    message: Seq<char>,
    extensions: JsonValue,
) -> Seq<(Seq<char>, Seq<char>)> {
    match conf.errors {
        Some(e) => {
            let head: Seq<(Seq<char>, Seq<char>)> = if e.include_messages {
                seq![("message"@, message)]
            } else {
                Seq::empty()
            };
            head + (match e.extensions {
                Some(confs) => spec_body_attrs(confs, extensions),
                None => Seq::empty(),
            })
        },
        None => Seq::empty(),
    }
}

/// Looks a header (or context entry) up, exactly `spec_header_lookup`.
#[verifier::loop_isolation(false)]
pub fn header_lookup<'a>(headers: &'a Vec<(String, String)>, name: &str) -> (r: Option<&'a String>)
    ensures
        match r {
            Some(v) => spec_header_lookup(headers@, name@) == Some(v@),
            None => spec_header_lookup(headers@, name@) is None,
        },
{
    let mut i: usize = 0;
    proof {
        assert(headers@.subrange(0, headers@.len() as int) =~= headers@);
    }
    while i < headers.len()
        invariant
            i <= headers.len(),
            spec_header_lookup(headers@, name@) == spec_header_lookup(
                headers@.subrange(i as int, headers@.len() as int),
                name@,
            ),
        decreases headers.len() - i,
    {
        proof {
            let rest = headers@.subrange(i as int, headers@.len() as int);
            assert(rest[0] == headers@[i as int]);
            assert(rest.drop_first() =~= headers@.subrange(i + 1, headers@.len() as int));
        }
        if str_eq(headers[i].0.as_str(), name) {
            return Some(&headers[i].1);
        }
        i += 1;
    }
    proof {
        assert(headers@.subrange(headers@.len() as int, headers@.len() as int)
            =~= Seq::<(String, String)>::empty());
    }
    None
}

/// Evaluates one header forward, exactly `spec_header_attr`.
fn header_attr(c: &HeaderForward, headers: &Vec<(String, String)>) -> (r: Option<(String, String)>)
    ensures
        match r {
            Some(p) => spec_header_attr(c@, headers@) == Some((p.0@, p.1@)),
            None => spec_header_attr(c@, headers@) is None,
        },
{
    let value: Option<String> = match header_lookup(headers, c.named.as_str()) {
        Some(v) => Some(v.clone()),
        None => match &c.default {
            Some(d) => Some(d.clone()),
            None => None,
        },
    };
    match value {
        Some(v) => {
            let key = match &c.rename {
                Some(r) => r.clone(),
                None => c.named.clone(),
            };
            Some((key, v))
        },
        None => None,
    }
}

/// Evaluates one body forward, exactly `spec_body_attr`.
fn body_attr(c: &BodyForward, body: &JsonValue) -> (r: Option<(String, String)>)
    ensures
        match r {
            Some(p) => spec_body_attr(c@, *body) == Some((p.0@, p.1@)),
            None => spec_body_attr(c@, *body) is None,
        },
{
    match crate::json::resolve(body, &c.path) {
        Some(v) => Some((c.name.clone(), crate::json::attr_text(v))),
        None => match &c.default {
            Some(d) => Some((c.name.clone(), d.clone())),
            None => None,
        },
    }
}

/// Evaluates one context forward, exactly `spec_context_attr`.
fn context_attr(c: &ContextForward, entries: &Vec<(String, String)>) -> (r: Option<(String, String)>)
    ensures
        match r {
            Some(p) => spec_context_attr(c@, entries@) == Some((p.0@, p.1@)),
            None => spec_context_attr(c@, entries@) is None,
        },
{
    let value: Option<String> = match header_lookup(entries, c.named.as_str()) {
        Some(v) => Some(v.clone()),
        None => match &c.default {
            Some(d) => Some(d.clone()),
            None => None,
        },
    };
    match value {
        Some(v) => {
            let key = match &c.rename {
                Some(r) => r.clone(),
                None => c.named.clone(),
            };
            Some((key, v))
        },
        None => None,
    }
}

/// Appends the attributes of a list of header forwards to `out`.
#[verifier::loop_isolation(false)]
fn push_header_attrs(
    out: &mut Vec<(String, String)>,
    confs: &Vec<HeaderForward>,
    headers: &Vec<(String, String)>,
)
    ensures
        final(out).deep_view() == old(out).deep_view() + spec_header_attrs(
            seq_views(confs@),
            headers@,
        ),
{
    let ghost base = old(out).deep_view();
    let mut i: usize = 0;
    proof {
        assert(seq_views(confs@).subrange(0, 0) =~= Seq::<HeaderForwardV>::empty());
        assert(base + Seq::<(Seq<char>, Seq<char>)>::empty() =~= base);
    }
    while i < confs.len()
        invariant
            i <= confs.len(),
            out.deep_view() == base + spec_header_attrs(
                seq_views(confs@).subrange(0, i as int),
                headers@,
            ),
        decreases confs.len() - i,
    {
        let ghost pre = seq_views(confs@).subrange(0, i as int);
        let ghost ext = seq_views(confs@).subrange(0, i + 1);
        proof {
            assert(ext.drop_last() =~= pre);
            assert(ext.last() == confs@[i as int]@);
        }
        let ghost dv_before = out.deep_view();
        match header_attr(&confs[i], headers) {
            Some(p) => {
                let ghost pv = (p.0@, p.1@);
                out.push(p);
                proof {
                    assert(out.deep_view() =~= dv_before.push(pv));
                    assert(spec_header_attrs(ext, headers@) == spec_header_attrs(
                        pre,
                        headers@,
                    ).push(pv));
                    assert(out.deep_view() =~= base + spec_header_attrs(ext, headers@));
                }
            },
            None => {
                proof {
                    assert(spec_header_attrs(ext, headers@) == spec_header_attrs(pre, headers@));
                }
            },
        }
        i += 1;
    }
    proof {
        assert(seq_views(confs@).subrange(0, confs@.len() as int) =~= seq_views(confs@));
    }
}

/// Appends the attributes of a list of body forwards to `out`.
#[verifier::loop_isolation(false)]
fn push_body_attrs(out: &mut Vec<(String, String)>, confs: &Vec<BodyForward>, body: &JsonValue)
    ensures
        final(out).deep_view() == old(out).deep_view() + spec_body_attrs(seq_views(confs@), *body),
{
    let ghost base = old(out).deep_view();
    let mut i: usize = 0;
    proof {
        assert(seq_views(confs@).subrange(0, 0) =~= Seq::<BodyForwardV>::empty());
        assert(base + Seq::<(Seq<char>, Seq<char>)>::empty() =~= base);
    }
    while i < confs.len()
        invariant
            i <= confs.len(),
            out.deep_view() == base + spec_body_attrs(
                seq_views(confs@).subrange(0, i as int),
                *body,
            ),
        decreases confs.len() - i,
    {
        let ghost pre = seq_views(confs@).subrange(0, i as int);
        let ghost ext = seq_views(confs@).subrange(0, i + 1);
        proof {
            assert(ext.drop_last() =~= pre);
            assert(ext.last() == confs@[i as int]@);
        }
        let ghost dv_before = out.deep_view();
        match body_attr(&confs[i], body) {
            Some(p) => {
                let ghost pv = (p.0@, p.1@);
                out.push(p);
                proof {
                    assert(out.deep_view() =~= dv_before.push(pv));
                    assert(spec_body_attrs(ext, *body) == spec_body_attrs(pre, *body).push(pv));
                    assert(out.deep_view() =~= base + spec_body_attrs(ext, *body));
                }
            },
            None => {
                proof {
                    assert(spec_body_attrs(ext, *body) == spec_body_attrs(pre, *body));
                }
            },
        }
        i += 1;
    }
    proof {
        assert(seq_views(confs@).subrange(0, confs@.len() as int) =~= seq_views(confs@));
    }
}

/// Appends the attributes of a list of context forwards to `out`.
#[verifier::loop_isolation(false)]
fn push_context_attrs(
    out: &mut Vec<(String, String)>,
    confs: &Vec<ContextForward>,
    entries: &Vec<(String, String)>,
)
    ensures
        final(out).deep_view() == old(out).deep_view() + spec_context_attrs(
            seq_views(confs@),
            entries@,
        ),
{
    let ghost base = old(out).deep_view();
    let mut i: usize = 0;
    proof {
        assert(seq_views(confs@).subrange(0, 0) =~= Seq::<ContextForwardV>::empty());
        assert(base + Seq::<(Seq<char>, Seq<char>)>::empty() =~= base);
    }
    while i < confs.len()
        invariant
            i <= confs.len(),
            out.deep_view() == base + spec_context_attrs(
                seq_views(confs@).subrange(0, i as int),
                entries@,
            ),
        decreases confs.len() - i,
    {
        let ghost pre = seq_views(confs@).subrange(0, i as int);
        let ghost ext = seq_views(confs@).subrange(0, i + 1);
        proof {
            assert(ext.drop_last() =~= pre);
            assert(ext.last() == confs@[i as int]@);
        }
        let ghost dv_before = out.deep_view();
        match context_attr(&confs[i], entries) {
            Some(p) => {
                let ghost pv = (p.0@, p.1@);
                out.push(p);
                proof {
                    assert(out.deep_view() =~= dv_before.push(pv));
                    assert(spec_context_attrs(ext, entries@) == spec_context_attrs(
                        pre,
                        entries@,
                    ).push(pv));
                    assert(out.deep_view() =~= base + spec_context_attrs(ext, entries@));
                }
            },
            None => {
                proof {
                    assert(spec_context_attrs(ext, entries@) == spec_context_attrs(pre, entries@));
                }
            },
        }
        i += 1;
    }
    proof {
        assert(seq_views(confs@).subrange(0, confs@.len() as int) =~= seq_views(confs@));
    }
}

impl AttributesForwardConf {
    /// The attributes this policy extracts from a request: the fixed ones,
    /// then what the request section reads from headers and body.
    #[verifier::loop_isolation(false)]
    pub fn get_attributes_from_request(
        &self,
        headers: &Vec<(String, String)>,
        body: &JsonValue,
    ) -> (r: Vec<(String, String)>)
        ensures
            r.deep_view() == spec_request_attrs(self@, headers@, *body),
    {
        let mut out: Vec<(String, String)> = Vec::new();
        if let Some(confs) = &self.insert {
            let mut i: usize = 0;
            proof {
                assert(out.deep_view() =~= spec_insert_attrs(seq_views(confs@).subrange(0, 0)));
            }
            while i < confs.len()
                invariant
                    i <= confs.len(),
                    out.deep_view() == spec_insert_attrs(seq_views(confs@).subrange(0, i as int)),
                decreases confs.len() - i,
            {
                let ghost dv_before = out.deep_view();
                let ghost pre = seq_views(confs@).subrange(0, i as int);
                let ghost ext = seq_views(confs@).subrange(0, i + 1);
                out.push((confs[i].name.clone(), confs[i].value.clone()));
                proof {
                    assert(ext =~= pre.push(confs@[i as int]@));
                    assert(out.deep_view() =~= dv_before.push(
                        (confs@[i as int].name@, confs@[i as int].value@),
                    ));
                    assert(spec_insert_attrs(ext) =~= spec_insert_attrs(pre).push(
                        (confs@[i as int].name@, confs@[i as int].value@),
                    ));
                    assert(out.deep_view() =~= spec_insert_attrs(ext));
                }
                i += 1;
            }
            proof {
                assert(seq_views(confs@).subrange(0, confs@.len() as int) =~= seq_views(confs@));
            }
        }
        if let Some(section) = &self.request {
            if let Some(confs) = &section.header {
                push_header_attrs(&mut out, confs, headers);
            }
            if let Some(confs) = &section.body {
                push_body_attrs(&mut out, confs, body);
            }
            proof {
                assert(out.deep_view() =~= spec_request_attrs(self@, headers@, *body));
            }
        } else {
            proof {
                assert(out.deep_view() =~= spec_request_attrs(self@, headers@, *body));
            }
        }
        out
    }

    /// The attributes this policy extracts from a response's headers and
    /// (first) body.
    pub fn get_attributes_from_response(
        &self,
        headers: &Vec<(String, String)>,
        body: &JsonValue,
    ) -> (r: Vec<(String, String)>)
        ensures
            r.deep_view() == spec_response_attrs(self@, headers@, *body),
    {
        let mut out: Vec<(String, String)> = Vec::new();
        if let Some(section) = &self.response {
            if let Some(confs) = &section.header {
                push_header_attrs(&mut out, confs, headers);
            }
            if let Some(confs) = &section.body {
                push_body_attrs(&mut out, confs, body);
            }
            proof {
                assert(out.deep_view() =~= spec_response_attrs(self@, headers@, *body));
            }
        } else {
            proof {
                assert(out.deep_view() =~= spec_response_attrs(self@, headers@, *body));
            }
        }
        out
    }

    /// The attributes this policy reads from the request context's custom
    /// entries.
    pub fn get_attributes_from_context(&self, entries: &Vec<(String, String)>) -> (r: Vec<
        (String, String),
    >)
        ensures
            r.deep_view() == spec_context_attrs_of_conf(self@, entries@),
    {
        let mut out: Vec<(String, String)> = Vec::new();
        if let Some(confs) = &self.context {
            push_context_attrs(&mut out, confs, entries);
        }
        proof {
            assert(out.deep_view() =~= spec_context_attrs_of_conf(self@, entries@));
        }
        out
    }

    /// The attributes this policy reads from a downstream error: its message
    /// when messages are included, then the declared extension fields.
    pub fn get_attributes_from_error(
        &self,
        message: &String,
        extensions: &JsonValue,
    ) -> (r: Vec<(String, String)>)
        ensures
            r.deep_view() == spec_error_attrs(self@, message@, *extensions),
    {
        let mut out: Vec<(String, String)> = Vec::new();
        if let Some(e) = &self.errors {
            if e.include_messages {
                out.push((String::from_str("message"), message.clone()));
            }
            if let Some(confs) = &e.extensions {
                push_body_attrs(&mut out, confs, extensions);
            }
            proof {
                assert(out.deep_view() =~= spec_error_attrs(self@, message@, *extensions));
            }
        } else {
            proof {
                assert(out.deep_view() =~= spec_error_attrs(self@, message@, *extensions));
            }
        }
        out
    }
}

} // verus!
