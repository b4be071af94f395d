//! The service-instrumentation pipeline: what each of the four nested
//! boundaries records, from request entry to response completion.
//!
//! Every function here is a decision: which span attributes a boundary
//! opens with, what lands in the shared context, which metric observation a
//! completion or a failure causes. The surrounding transport — awaiting the
//! downstream service, streaming the response body — hands these functions
//! plain values and carries their results out.

use vstd::prelude::*;

use crate::attributes::{spec_header_lookup, AttributesForwardConf, AttributesForwardConfV};
use crate::forward::{
    filter_headers, filter_variables_values, header_map_json, spec_filtered_variables,
    spec_group_headers, spec_kept_headers, string_map_json, ForwardHeaders, ForwardValues,
};
use crate::json::JsonValue;
use crate::propagator::spec_hex_pad;
use crate::span::{attrs_view, AttrValue, AttrValueV, Span};
use crate::text::{spec_dec, u64_to_dec};
use crate::usage::Context;

verus! {

/// The two instruments every boundary records into: a monotonic request
/// counter and a duration histogram. The model keeps each observation with
/// the attribute set it was tagged with, captured by value.
pub struct BasicMetrics {
    pub request_totals: Vec<Vec<(String, String)>>,
    pub request_durations: Vec<(u64, Vec<(String, String)>)>,
}

impl BasicMetrics {
    /// Fresh instruments with nothing recorded.
    pub fn new() -> (r: BasicMetrics)
        ensures
            r.request_totals@.len() == 0,
            r.request_durations@.len() == 0,
    {
        BasicMetrics { request_totals: Vec::new(), request_durations: Vec::new() }
    }

    /// Counts one request with the given attribute set.
    pub fn add_total(&mut self, attributes: Vec<(String, String)>)
        ensures
            final(self).request_totals@ == old(self).request_totals@.push(attributes),
            final(self).request_durations@ == old(self).request_durations@,
    {
        self.request_totals.push(attributes);
    }

    /// Records one request duration with the given attribute set.
    pub fn record_duration(&mut self, duration_ns: u64, attributes: Vec<(String, String)>)
        ensures
            final(self).request_durations@ == old(self).request_durations@.push(
                (duration_ns, attributes),
            ),
            final(self).request_totals@ == old(self).request_totals@,
    {
        self.request_durations.push((duration_ns, attributes));
    }
}

/// The analytics-facing configuration a boundary reads.
pub struct ApolloConf {
    pub client_name_header: String,
    pub client_version_header: String,
    pub send_headers: ForwardHeaders,
    pub send_variable_values: ForwardValues,
}

/// Whether and under which header a response exposes its trace identifier.
pub struct ExposeTraceId {
    pub enabled: bool,
    pub header_name: Option<String>,
}

/// The logging toggles for request headers and bodies.
pub struct LoggingConf {
    pub display_headers: bool,
    pub display_body: bool,
}

/// The metric-attribute policies of the two boundaries that have one.
pub struct MetricsConfModel {
    pub supergraph: Option<AttributesForwardConf>,
    pub subgraph: Option<crate::attributes::SubgraphAttributesConf>,
}

/// A request as the edge boundary sees it.
pub struct RouterRequest {
    pub method: String,
    pub uri: String,
    pub version: String,
    pub headers: Vec<(String, String)>,
}

/// A request as the supergraph boundary sees it: the GraphQL document and
/// its variables, plus the request body as JSON for body-path forwards.
pub struct SupergraphRequest {
    pub headers: Vec<(String, String)>,
    pub query: Option<String>,
    pub operation_name: Option<String>,
    pub variables: Vec<(String, JsonValue)>,
    pub body: JsonValue,
}

/// An outbound fetch as the subgraph boundary sees it.
pub struct SubgraphRequest {
    pub headers: Vec<(String, String)>,
    pub query: Option<String>,
    pub operation_name: Option<String>,
    pub body: JsonValue,
}

/// A subgraph's reply.
pub struct SubgraphResponse {
    pub status: u16,
    pub headers: Vec<(String, String)>,
    pub body: JsonValue,
}

/// A downstream failure: its message and its JSON shape, which error
/// forwards read.
pub struct SubgraphError {
    pub message: String,
    pub extensions: JsonValue,
}

/// The first header of this name, or the empty string.
pub open spec fn header_or_empty(headers: Seq<(String, String)>, name: Seq<char>) -> Seq<char> {
    match spec_header_lookup(headers, name) {
        Some(v) => v,
        None => Seq::empty(),
    }
}

/// An optional string's view, or the empty string.
pub open spec fn opt_or_empty_str(o: Option<String>) -> Seq<char> {
    match o {
        Some(s) => s@,
        None => Seq::empty(),
    }
}

/// The view of an optional borrowed policy.
pub open spec fn opt_conf_view(o: Option<&AttributesForwardConf>) -> Option<AttributesForwardConfV> {
    match o {
        Some(c) => Some(c@),
        None => None,
    }
}

/// The attribute pairs an optional pair list holds.
pub open spec fn opt_pairs_view(o: Option<Vec<(String, String)>>) -> Seq<(Seq<char>, Seq<char>)> {
    match o {
        Some(v) => v.deep_view(),
        None => Seq::empty(),
    }
}

/// An HTTP status in the success class.
pub open spec fn spec_is_success(status: u16) -> bool {
    200 <= status < 300
}

/// Looks a header up, returning an owned copy or the empty string.
fn header_value_or_empty(headers: &Vec<(String, String)>, name: &str) -> (r: String)
    ensures
        r@ == header_or_empty(headers@, name@),
{
    match crate::attributes::header_lookup(headers, name) {
        Some(v) => v.clone(),
        None => String::new(),
    }
}

/// Copies a list of attribute pairs, keeping its views.
#[verifier::loop_isolation(false)]
pub fn clone_pairs(src: &Vec<(String, String)>) -> (r: Vec<(String, String)>)
    ensures
        r.deep_view() == src.deep_view(),
{
    let mut out: Vec<(String, String)> = Vec::new();
    let mut i: usize = 0;
    proof {
        assert(out.deep_view() =~= src.deep_view().subrange(0, 0));
    }
    while i < src.len()
        invariant
            i <= src.len(),
            out.deep_view() == src.deep_view().subrange(0, i as int),
        decreases src.len() - i,
    {
        out.push((src[i].0.clone(), src[i].1.clone()));
        proof {
            assert(out.deep_view() =~= src.deep_view().subrange(0, i + 1));
        }
        i += 1;
    }
    proof {
        assert(src.deep_view().subrange(0, src@.len() as int) =~= src.deep_view());
    }
    out
}

/// Appends copies of attribute pairs to `out`.
#[verifier::loop_isolation(false)]
pub fn extend_pairs(out: &mut Vec<(String, String)>, src: &Vec<(String, String)>)
    ensures
        final(out).deep_view() == old(out).deep_view() + src.deep_view(),
{
    let ghost base = old(out).deep_view();
    let mut i: usize = 0;
    proof {
        assert(base + src.deep_view().subrange(0, 0) =~= base);
    }
    while i < src.len()
        invariant
            i <= src.len(),
            out.deep_view() == base + src.deep_view().subrange(0, i as int),
        decreases src.len() - i,
    {
        let ghost dv_before = out.deep_view();
        let ghost pv = (src@[i as int].0@, src@[i as int].1@);
        out.push((src[i].0.clone(), src[i].1.clone()));
        proof {
            assert(out.deep_view() =~= dv_before.push(pv));
            assert(src.deep_view()[i as int] == pv);
            assert(src.deep_view().subrange(0, i + 1) =~= src.deep_view().subrange(0, i as int).push(pv));
            assert(out.deep_view() =~= base + src.deep_view().subrange(0, i + 1));
        }
        i += 1;
    }
    proof {
        assert(src.deep_view().subrange(0, src@.len() as int) =~= src.deep_view());
    }
}

// ---------------------------------------------------------------------------
// Edge (router) boundary.
// ---------------------------------------------------------------------------

/// The attributes the edge boundary's root span opens with.
pub open spec fn spec_router_span_attrs(
    req: RouterRequest,
    apollo_client_name_header: Seq<char>,
    apollo_client_version_header: Seq<char>,
    send_headers: ForwardHeaders,
    trace_id: Option<u128>,
) -> Seq<(Seq<char>, AttrValueV)> {
    seq![
        ("http.method"@, AttrValueV::Text(req.method@)),
        ("http.route"@, AttrValueV::Text(req.uri@)),
        ("http.flavor"@, AttrValueV::Text(req.version@)),
        (
            "trace_id"@,
            AttrValueV::Text(
                match trace_id {
                    Some(t) => spec_hex_pad(32, t as int),
                    None => Seq::empty(),
                },
            ),
        ),
        (
            "client.name"@,
            AttrValueV::Text(header_or_empty(req.headers@, apollo_client_name_header)),
        ),
        (
            "client.version"@,
            AttrValueV::Text(header_or_empty(req.headers@, apollo_client_version_header)),
        ),
        ("otel.kind"@, AttrValueV::Text("INTERNAL"@)),
        (
            "apollo_private.http.request_headers"@,
            AttrValueV::Text(
                header_map_json(spec_group_headers(spec_kept_headers(req.headers@, send_headers))),
            ),
        ),
    ]
}

/// Opens the edge boundary's root span: method, route, protocol version,
/// the trace identifier, the calling client's identity, and the filtered
/// request headers for the usage reporter.
pub fn router_request_span(
    req: &RouterRequest,
    apollo: &ApolloConf,
    trace_id: Option<u128>,
    sampled: bool,
) -> (r: Span)
    ensures
        r.name@ == "router"@,
        r.sampled == sampled,
        attrs_view(r.attributes@) == spec_router_span_attrs(
            *req,
            apollo.client_name_header@,
            apollo.client_version_header@,
            apollo.send_headers,
            trace_id,
        ),
{
    let mut span = Span::new(String::from_str("router"), sampled);
    span.record(String::from_str("http.method"), AttrValue::Text(req.method.clone()));
    span.record(String::from_str("http.route"), AttrValue::Text(req.uri.clone()));
    span.record(String::from_str("http.flavor"), AttrValue::Text(req.version.clone()));
    let trace_text = match trace_id {
        Some(t) => crate::propagator::format_trace_id(t),
        None => String::new(),
    };
    span.record(String::from_str("trace_id"), AttrValue::Text(trace_text));
    let client_name = header_value_or_empty(&req.headers, apollo.client_name_header.as_str());
    span.record(String::from_str("client.name"), AttrValue::Text(client_name));
    let client_version = header_value_or_empty(&req.headers, apollo.client_version_header.as_str());
    span.record(String::from_str("client.version"), AttrValue::Text(client_version));
    span.record(String::from_str("otel.kind"), AttrValue::Text(String::from_str("INTERNAL")));
    let filtered = filter_headers(&req.headers, &apollo.send_headers);
    span.record(
        String::from_str("apollo_private.http.request_headers"),
        AttrValue::Text(filtered),
    );
    proof {
        assert(attrs_view(span.attributes@) =~= spec_router_span_attrs(
            *req,
            apollo.client_name_header@,
            apollo.client_version_header@,
            apollo.send_headers,
            trace_id,
        ));
    }
    span
}

/// The JSON text recorded for an exposed response trace header, when the
/// exposure is on, a header name is configured and the response carries it.
pub open spec fn spec_response_headers_json(
    expose: ExposeTraceId,
    response_headers: Seq<(String, String)>,
) -> Option<Seq<char>> {
    if expose.enabled {
        match expose.header_name {
            Some(h) => match spec_header_lookup(response_headers, h@) {
                Some(v) => Some(header_map_json(seq![(h@, seq![v])])),
                None => None,
            },
            None => None,
        }
    } else {
        None
    }
}

/// Closes the edge boundary: records the elapsed time, the exposed trace
/// header when one came back, and the status class — an HTTP status of 400
/// or above reads as an error, anything else as success.
pub fn router_response_record(
    span: &mut Span,
    status: u16,
    duration_ns: u64,
    expose: &ExposeTraceId,
    response_headers: &Vec<(String, String)>,
)
    requires
        duration_ns <= 0x7fff_ffff_ffff_ffff,
    ensures
        final(span).name == old(span).name,
        final(span).sampled == old(span).sampled,
        attrs_view(final(span).attributes@) == attrs_view(old(span).attributes@)
            + seq![("apollo_private.duration_ns"@, AttrValueV::Int(duration_ns as i64))]
            + (match spec_response_headers_json(*expose, response_headers@) {
                Some(j) => seq![("apollo_private.http.response_headers"@, AttrValueV::Text(j))],
                None => Seq::<(Seq<char>, AttrValueV)>::empty(),
            })
            + seq![
                (
                    "otel.status_code"@,
                    AttrValueV::Text(if status >= 400 { "Error"@ } else { "Ok"@ }),
                ),
            ],
{
    span.record(
        String::from_str("apollo_private.duration_ns"),
        AttrValue::Int(duration_ns as i64),
    );
    if expose.enabled {
        if let Some(header_name) = &expose.header_name {
            if let Some(value) = crate::attributes::header_lookup(
                response_headers,
                header_name.as_str(),
            ) {
                let mut group: Vec<(String, Vec<String>)> = Vec::new();
                let mut values: Vec<String> = Vec::new();
                values.push(value.clone());
                group.push((header_name.clone(), values));
                proof {
                    assert(group.deep_view() =~~= seq![(header_name@, seq![value@])]);
                }
                let rendered = crate::forward::encode_header_groups(&group);
                span.record(
                    String::from_str("apollo_private.http.response_headers"),
                    AttrValue::Text(rendered),
                );
            }
        }
    }
    if status >= 400 {
        span.record(
            String::from_str("otel.status_code"),
            AttrValue::Text(String::from_str("Error")),
        );
    } else {
        span.record(
            String::from_str("otel.status_code"),
            AttrValue::Text(String::from_str("Ok")),
        );
    }
    proof {
        assert(attrs_view(final(span).attributes@) =~= attrs_view(old(span).attributes@)
            + seq![("apollo_private.duration_ns"@, AttrValueV::Int(duration_ns as i64))]
            + (match spec_response_headers_json(*expose, response_headers@) {
                Some(j) => seq![("apollo_private.http.response_headers"@, AttrValueV::Text(j))],
                None => Seq::<(Seq<char>, AttrValueV)>::empty(),
            })
            + seq![
                (
                    "otel.status_code"@,
                    AttrValueV::Text(if status >= 400 { "Error"@ } else { "Ok"@ }),
                ),
            ]);
    }
}

// ---------------------------------------------------------------------------
// Supergraph boundary.
// ---------------------------------------------------------------------------

/// The attributes the supergraph span opens with.
pub open spec fn spec_supergraph_span_attrs(
    req: SupergraphRequest,
    field_level_instrumentation_percent: u32,
    send_variable_values: ForwardValues,
) -> Seq<(Seq<char>, AttrValueV)> {
    seq![
        ("graphql.document"@, AttrValueV::Text(opt_or_empty_str(req.query))),
        ("graphql.operation.name"@, AttrValueV::Text(opt_or_empty_str(req.operation_name))),
        ("otel.kind"@, AttrValueV::Text("INTERNAL"@)),
        (
            "apollo_private.field_level_instrumentation_ratio"@,
            AttrValueV::Int(field_level_instrumentation_percent as i64),
        ),
        (
            "apollo_private.graphql.variables"@,
            AttrValueV::Text(
                string_map_json(spec_filtered_variables(req.variables@, send_variable_values)),
            ),
        ),
    ]
}

/// Opens the supergraph span: the document, the operation name, the
/// configured field-level-instrumentation share, and the filtered variable
/// map.
pub fn supergraph_service_span(
    req: &SupergraphRequest,
    field_level_instrumentation_percent: u32,
    apollo: &ApolloConf,
    sampled: bool,
) -> (r: Span)
    ensures
        r.name@ == "supergraph"@,
        r.sampled == sampled,
        attrs_view(r.attributes@) == spec_supergraph_span_attrs(
            *req,
            field_level_instrumentation_percent,
            apollo.send_variable_values,
        ),
{
    let mut span = Span::new(String::from_str("supergraph"), sampled);
    let query = match &req.query {
        Some(q) => q.clone(),
        None => String::new(),
    };
    span.record(String::from_str("graphql.document"), AttrValue::Text(query));
    let operation_name = match &req.operation_name {
        Some(o) => o.clone(),
        None => String::new(),
    };
    span.record(String::from_str("graphql.operation.name"), AttrValue::Text(operation_name));
    span.record(String::from_str("otel.kind"), AttrValue::Text(String::from_str("INTERNAL")));
    span.record(
        String::from_str("apollo_private.field_level_instrumentation_ratio"),
        AttrValue::Int(field_level_instrumentation_percent as i64),
    );
    let variables = filter_variables_values(&req.variables, &apollo.send_variable_values);
    span.record(String::from_str("apollo_private.graphql.variables"), AttrValue::Text(variables));
    proof {
        assert(attrs_view(span.attributes@) =~= spec_supergraph_span_attrs(
            *req,
            field_level_instrumentation_percent,
            apollo.send_variable_values,
        ));
    }
    span
}

/// Stamps the operation signature onto the root span once the planner has
/// left one in the context; without one the span stays as it was.
pub fn record_operation_signature(context: &Context, root_span: &mut Span)
    ensures
        final(root_span).name == old(root_span).name,
        final(root_span).sampled == old(root_span).sampled,
        match context.usage_reporting {
            Some(u) => {
                &&& final(root_span).attributes@.len() == old(root_span).attributes@.len() + 1
                &&& final(root_span).attributes@.drop_last() == old(root_span).attributes@
                &&& final(root_span).attributes@.last().0@
                    == "apollo_private.operation_signature"@
                &&& final(root_span).attributes@.last().1 matches AttrValue::Text(s) && s@
                    == u.stats_report_key@
            },
            None => final(root_span).attributes@ == old(root_span).attributes@,
        },
{
    if let Some(u) = &context.usage_reporting {
        root_span.record(
            String::from_str("apollo_private.operation_signature"),
            AttrValue::Text(u.stats_report_key.clone()),
        );
        proof {
            assert(final(root_span).attributes@.drop_last() =~= old(root_span).attributes@);
        }
    }
}

/// Appends the trace identifier to the response headers when exposure is
/// on: under the configured name, or the default one.
pub fn append_trace_id_header(
    expose: &ExposeTraceId,
    response_headers: &mut Vec<(String, String)>,
    trace_id: Option<u128>,
)
    ensures
        (expose.enabled && trace_id is Some) ==> {
            &&& final(response_headers)@.len() == old(response_headers)@.len() + 1
            &&& final(response_headers)@.drop_last() == old(response_headers)@
            &&& final(response_headers)@.last().0@ == (match expose.header_name {
                Some(h) => h@,
                None => "apollo-trace-id"@,
            })
            &&& final(response_headers)@.last().1@ == spec_hex_pad(
                32,
                trace_id.unwrap() as int,
            )
        },
        !(expose.enabled && trace_id is Some) ==> final(response_headers)@ == old(
            response_headers,
        )@,
{
    if expose.enabled {
        if let Some(t) = trace_id {
            let name = match &expose.header_name {
                Some(h) => h.clone(),
                None => String::from_str("apollo-trace-id"),
            };
            let value = crate::propagator::format_trace_id(t);
            response_headers.push((name, value));
            proof {
                assert(final(response_headers)@.drop_last() =~= old(response_headers)@);
            }
        }
    }
}

/// The metric attributes stored in the context when a supergraph request
/// enters: the operation name, then what the supergraph policy reads from
/// the request and the context.
pub open spec fn spec_populated_attrs(
    req: SupergraphRequest,
    conf: Option<AttributesForwardConfV>,
    custom: Seq<(String, String)>,
) -> Seq<(Seq<char>, Seq<char>)> {
    (match req.operation_name {
        Some(o) => seq![("operation_name"@, o@)],
        None => Seq::empty(),
    }) + (match conf {
        Some(c) => crate::attributes::spec_request_attrs(c, req.headers@, req.body)
            + crate::attributes::spec_context_attrs_of_conf(c, custom),
        None => Seq::empty(),
    })
}

/// Fills the request context as a supergraph request enters: the client's
/// identity from its headers, the logging toggles, and — when metrics are
/// configured — the attribute set later observations are tagged with.
pub fn populate_context(
    apollo: &ApolloConf,
    logging: Option<&LoggingConf>,
    metrics: Option<&MetricsConfModel>,
    req: &SupergraphRequest,
    context: &mut Context,
)
    ensures
        final(context).client_name matches Some(s) && s@ == header_or_empty(
            req.headers@,
            apollo.client_name_header@,
        ),
        final(context).client_version matches Some(s) && s@ == header_or_empty(
            req.headers@,
            apollo.client_version_header@,
        ),
        final(context).logging_display_headers == (match logging {
            Some(l) => l.display_headers,
            None => false,
        }),
        final(context).logging_display_body == (match logging {
            Some(l) => l.display_body,
            None => false,
        }),
        match metrics {
            Some(m) => final(context).attributes matches Some(attrs) && attrs.deep_view()
                == spec_populated_attrs(
                *req,
                match m.supergraph {
                    Some(c) => Some(c@),
                    None => None,
                },
                old(context).custom@,
            ),
            None => final(context).attributes == old(context).attributes,
        },
        final(context).usage_reporting == old(context).usage_reporting,
        final(context).persisted_query_hit == old(context).persisted_query_hit,
        final(context).studio_exclude == old(context).studio_exclude,
        final(context).subgraph_attributes == old(context).subgraph_attributes,
        final(context).custom == old(context).custom,
{
    context.client_name = Some(
        header_value_or_empty(&req.headers, apollo.client_name_header.as_str()),
    );
    context.client_version = Some(
        header_value_or_empty(&req.headers, apollo.client_version_header.as_str()),
    );
    match logging {
        Some(l) => {
            context.logging_display_headers = l.display_headers;
            context.logging_display_body = l.display_body;
        },
        None => {
            context.logging_display_headers = false;
            context.logging_display_body = false;
        },
    }
    if let Some(m) = metrics {
        let mut attrs: Vec<(String, String)> = Vec::new();
        if let Some(operation_name) = &req.operation_name {
            attrs.push((String::from_str("operation_name"), operation_name.clone()));
        }
        let ghost head = attrs.deep_view();
        proof {
            assert(head =~= (match req.operation_name {
                Some(o) => seq![("operation_name"@, o@)],
                None => Seq::<(Seq<char>, Seq<char>)>::empty(),
            }));
        }
        if let Some(conf) = &m.supergraph {
            let from_request = conf.get_attributes_from_request(&req.headers, &req.body);
            extend_pairs(&mut attrs, &from_request);
            let from_context = conf.get_attributes_from_context(&context.custom);
            extend_pairs(&mut attrs, &from_context);
        }
        proof {
            assert(attrs.deep_view() =~= spec_populated_attrs(
                *req,
                match m.supergraph {
                    Some(c) => Some(c@),
                    None => None,
                },
                old(context).custom@,
            ));
        }
        context.attributes = Some(attrs);
    }
}

/// The attribute set a completed supergraph response is observed with: the
/// stored context attributes, the status, what the policy reads from the
/// response, and an error tag outside the success class.
pub open spec fn spec_supergraph_ok_attrs(
    stored: Seq<(Seq<char>, Seq<char>)>,
    conf: Option<AttributesForwardConfV>,
    status: u16,
    response_headers: Seq<(String, String)>,
    first_body: JsonValue,
) -> Seq<(Seq<char>, Seq<char>)> {
    stored + seq![("status"@, spec_dec(status as nat))] + (match conf {
        Some(c) => crate::attributes::spec_response_attrs(c, response_headers, first_body),
        None => Seq::empty(),
    }) + (if !spec_is_success(status) {
        seq![("error"@, spec_dec(status as nat))]
    } else {
        Seq::<(Seq<char>, Seq<char>)>::empty()
    })
}

/// Records the two metric observations of a supergraph response that
/// arrived: one count and one duration, both tagged with the assembled
/// attribute set.
pub fn update_otel_metrics(
    metrics: &mut BasicMetrics,
    conf: Option<&AttributesForwardConf>,
    context: &Context,
    status: u16,
    response_headers: &Vec<(String, String)>,
    first_body: &JsonValue,
    duration_ns: u64,
)
    ensures
        final(metrics).request_totals@.len() == old(metrics).request_totals@.len() + 1,
        final(metrics).request_totals@.drop_last() == old(metrics).request_totals@,
        final(metrics).request_totals@.last().deep_view() == spec_supergraph_ok_attrs(
            opt_pairs_view(context.attributes),
            opt_conf_view(conf),
            status,
            response_headers@,
            *first_body,
        ),
        final(metrics).request_durations@.len() == old(metrics).request_durations@.len() + 1,
        final(metrics).request_durations@.drop_last() == old(metrics).request_durations@,
        final(metrics).request_durations@.last().0 == duration_ns,
        final(metrics).request_durations@.last().1.deep_view() == spec_supergraph_ok_attrs(
            opt_pairs_view(context.attributes),
            opt_conf_view(conf),
            status,
            response_headers@,
            *first_body,
        ),
{
    let mut attrs: Vec<(String, String)> = Vec::new();
    proof {
        assert(attrs.deep_view() =~= Seq::<(Seq<char>, Seq<char>)>::empty());
    }
    if let Some(stored) = &context.attributes {
        extend_pairs(&mut attrs, stored);
    }
    let ghost with_stored = attrs.deep_view();
    proof {
        assert(with_stored =~= opt_pairs_view(context.attributes));
    }
    attrs.push((String::from_str("status"), u64_to_dec(status as u64)));
    proof {
        assert(attrs.deep_view() =~= with_stored.push(("status"@, spec_dec(status as nat))));
    }
    let ghost with_status = attrs.deep_view();
    if let Some(c) = conf {
        let from_response = c.get_attributes_from_response(response_headers, first_body);
        extend_pairs(&mut attrs, &from_response);
    }
    let ghost with_response = attrs.deep_view();
    proof {
        assert(with_response =~= with_status + (match opt_conf_view(conf) {
            Some(c) => crate::attributes::spec_response_attrs(c, response_headers@, *first_body),
            None => Seq::<(Seq<char>, Seq<char>)>::empty(),
        }));
    }
    if !(status >= 200 && status < 300) {
        attrs.push((String::from_str("error"), u64_to_dec(status as u64)));
        proof {
            assert(attrs.deep_view() =~= with_response.push(("error"@, spec_dec(status as nat))));
        }
    }
    proof {
        assert(attrs.deep_view() =~= spec_supergraph_ok_attrs(
            opt_pairs_view(context.attributes),
            opt_conf_view(conf),
            status,
            response_headers@,
            *first_body,
        ));
    }
    let attrs_for_duration = clone_pairs(&attrs);
    metrics.add_total(attrs);
    metrics.record_duration(duration_ns, attrs_for_duration);
    proof {
        assert(final(metrics).request_totals@.drop_last() =~= old(metrics).request_totals@);
        assert(final(metrics).request_durations@.drop_last() =~= old(metrics).request_durations@);
    }
}

/// What a failed supergraph request is observed with: the attributes the
/// policy reads from the error.
pub open spec fn spec_supergraph_err_attrs(
    conf: Option<AttributesForwardConfV>,
    message: Seq<char>,
    extensions: JsonValue,
) -> Seq<(Seq<char>, Seq<char>)> {
    match conf {
        Some(c) => crate::attributes::spec_error_attrs(c, message, extensions),
        None => Seq::empty(),
    }
}

/// A downstream failure still feeds telemetry: exactly one stats record is
/// submitted (when reporting is on) with the error flag set, and exactly
/// one counter observation is made, tagged with the attributes the policy
/// derives from the error. The error itself then propagates to the caller
/// unchanged.
pub fn on_supergraph_failure(
    context: &Context,
    conf: Option<&AttributesForwardConf>,
    metrics: &mut BasicMetrics,
    sender: &mut crate::usage::Sender,
    err: &SubgraphError,
    duration_ns: u64,
    trace_id: u128,
)
    ensures
        final(sender).kind == old(sender).kind,
        !(old(sender).kind is Noop) ==> {
            &&& final(sender).sent@.len() == old(sender).sent@.len() + 1
            &&& final(sender).sent@.drop_last() == old(sender).sent@
            &&& crate::usage::report_matches(
                final(sender).sent@.last(),
                *context,
                true,
                duration_ns,
                trace_id,
            )
        },
        old(sender).kind is Noop ==> final(sender).sent@ == old(sender).sent@,
        final(metrics).request_totals@.len() == old(metrics).request_totals@.len() + 1,
        final(metrics).request_totals@.drop_last() == old(metrics).request_totals@,
        final(metrics).request_totals@.last().deep_view() == spec_supergraph_err_attrs(
            opt_conf_view(conf),
            err.message@,
            err.extensions,
        ),
        final(metrics).request_durations@ == old(metrics).request_durations@,
{
    let noop = match sender.kind {
        crate::usage::SenderKind::Noop => true,
        crate::usage::SenderKind::Apollo => false,
    };
    if !noop {
        crate::usage::update_apollo_metrics(context, sender, true, duration_ns, trace_id);
    }
    let mut attrs: Vec<(String, String)> = Vec::new();
    if let Some(c) = conf {
        let from_error = c.get_attributes_from_error(&err.message, &err.extensions);
        extend_pairs(&mut attrs, &from_error);
    }
    proof {
        assert(attrs.deep_view() =~= spec_supergraph_err_attrs(
            opt_conf_view(conf),
            err.message@,
            err.extensions,
        ));
    }
    metrics.add_total(attrs);
    proof {
        assert(final(metrics).request_totals@.drop_last() =~= old(metrics).request_totals@);
    }
}

/// The stream state a supergraph response starts in: an unsuccessful HTTP
/// status already counts as an error.
pub fn initial_stream_state(status: u16) -> (r: crate::usage::StreamState)
    ensures
        r.has_errors == !spec_is_success(status),
{
    crate::usage::StreamState { has_errors: !(status >= 200 && status < 300) }
}

// ---------------------------------------------------------------------------
// Execution boundary.
// ---------------------------------------------------------------------------

/// Opens the execution boundary's minimal internal span: no attribute
/// resolution happens here.
pub fn execution_span(sampled: bool) -> (r: Span)
    ensures
        r.name@ == "execution"@,
        r.sampled == sampled,
        attrs_view(r.attributes@) == seq![("otel.kind"@, AttrValueV::Text("INTERNAL"@))],
{
    let mut span = Span::new(String::from_str("execution"), sampled);
    span.record(String::from_str("otel.kind"), AttrValue::Text(String::from_str("INTERNAL")));
    proof {
        assert(attrs_view(span.attributes@) =~= seq![
            ("otel.kind"@, AttrValueV::Text("INTERNAL"@)),
        ]);
    }
    span
}

// ---------------------------------------------------------------------------
// Subgraph boundary.
// ---------------------------------------------------------------------------

/// The attributes a subgraph fetch's span opens with.
pub open spec fn spec_subgraph_span_attrs(name: Seq<char>, req: SubgraphRequest) -> Seq<
    (Seq<char>, AttrValueV),
> {
    seq![
        ("apollo.subgraph.name"@, AttrValueV::Text(name)),
        ("graphql.document"@, AttrValueV::Text(opt_or_empty_str(req.query))),
        ("graphql.operation.name"@, AttrValueV::Text(opt_or_empty_str(req.operation_name))),
        ("otel.kind"@, AttrValueV::Text("INTERNAL"@)),
    ]
}

/// Opens a subgraph fetch's span: the subgraph's name, the outbound
/// document and operation name.
pub fn subgraph_service_span(name: &str, req: &SubgraphRequest, sampled: bool) -> (r: Span)
    ensures
        r.name@ == "subgraph"@,
        r.sampled == sampled,
        attrs_view(r.attributes@) == spec_subgraph_span_attrs(name@, *req),
{
    let mut span = Span::new(String::from_str("subgraph"), sampled);
    span.record(String::from_str("apollo.subgraph.name"), AttrValue::Text(name.to_owned()));
    let query = match &req.query {
        Some(q) => q.clone(),
        None => String::new(),
    };
    span.record(String::from_str("graphql.document"), AttrValue::Text(query));
    let operation_name = match &req.operation_name {
        Some(o) => o.clone(),
        None => String::new(),
    };
    span.record(String::from_str("graphql.operation.name"), AttrValue::Text(operation_name));
    span.record(String::from_str("otel.kind"), AttrValue::Text(String::from_str("INTERNAL")));
    proof {
        assert(attrs_view(span.attributes@) =~= spec_subgraph_span_attrs(name@, *req));
    }
    span
}

/// What the subgraph policy reads from an outbound request before it
/// leaves: request and context forwards.
pub open spec fn spec_subgraph_request_attrs(
    conf: Option<AttributesForwardConfV>,
    req: SubgraphRequest,
    custom: Seq<(String, String)>,
) -> Seq<(Seq<char>, Seq<char>)> {
    match conf {
        Some(c) => crate::attributes::spec_request_attrs(c, req.headers@, req.body)
            + crate::attributes::spec_context_attrs_of_conf(c, custom),
        None => Seq::empty(),
    }
}

/// Stores in the context what the resolved subgraph policy reads from an
/// outbound request, for the observation made at its completion.
pub fn store_subgraph_request_attributes(
    conf: Option<&AttributesForwardConf>,
    req: &SubgraphRequest,
    context: &mut Context,
)
    ensures
        final(context).subgraph_attributes matches Some(attrs) && attrs.deep_view()
            == spec_subgraph_request_attrs(opt_conf_view(conf), *req, old(context).custom@),
        final(context).usage_reporting == old(context).usage_reporting,
        final(context).client_name == old(context).client_name,
        final(context).client_version == old(context).client_version,
        final(context).persisted_query_hit == old(context).persisted_query_hit,
        final(context).studio_exclude == old(context).studio_exclude,
        final(context).attributes == old(context).attributes,
        final(context).logging_display_headers == old(context).logging_display_headers,
        final(context).logging_display_body == old(context).logging_display_body,
        final(context).custom == old(context).custom,
{
    let mut attrs: Vec<(String, String)> = Vec::new();
    if let Some(c) = conf {
        let from_request = c.get_attributes_from_request(&req.headers, &req.body);
        extend_pairs(&mut attrs, &from_request);
        let from_context = c.get_attributes_from_context(&context.custom);
        extend_pairs(&mut attrs, &from_context);
    }
    proof {
        assert(attrs.deep_view() =~= spec_subgraph_request_attrs(
            opt_conf_view(conf),
            *req,
            old(context).custom@,
        ));
    }
    context.subgraph_attributes = Some(attrs);
}

/// The attribute set one subgraph fetch's observation carries: the stored
/// request attributes, the fixed subgraph tag, the context forwards, and
/// either the status with the response forwards or the error forwards.
pub open spec fn spec_subgraph_obs_attrs(
    stored: Seq<(Seq<char>, Seq<char>)>,
    subgraph_name: Seq<char>,
    conf: Option<AttributesForwardConfV>,
    custom: Seq<(String, String)>,
    result: Result<SubgraphResponse, SubgraphError>,
) -> Seq<(Seq<char>, Seq<char>)> {
    stored + seq![("subgraph"@, subgraph_name)] + (match conf {
        Some(c) => crate::attributes::spec_context_attrs_of_conf(c, custom),
        None => Seq::empty(),
    }) + (match result {
        Ok(resp) => seq![("status"@, spec_dec(resp.status as nat))] + (match conf {
            Some(c) => crate::attributes::spec_response_attrs(c, resp.headers@, resp.body),
            None => Seq::empty(),
        }),
        Err(e) => match conf {
            Some(c) => crate::attributes::spec_error_attrs(c, e.message@, e.extensions),
            None => Seq::empty(),
        },
    })
}

/// Observes one subgraph fetch's completion: exactly one count and one
/// duration, tagged with the assembled attribute set — on failure, with the
/// attributes derived from that error.
pub fn store_subgraph_response_attributes(
    context: &Context,
    metrics: &mut BasicMetrics,
    subgraph_name: &String,
    conf: Option<&AttributesForwardConf>,
    result: &Result<SubgraphResponse, SubgraphError>,
    duration_ns: u64,
)
    ensures
        final(metrics).request_totals@.len() == old(metrics).request_totals@.len() + 1,
        final(metrics).request_totals@.drop_last() == old(metrics).request_totals@,
        final(metrics).request_totals@.last().deep_view() == spec_subgraph_obs_attrs(
            opt_pairs_view(context.subgraph_attributes),
            subgraph_name@,
            opt_conf_view(conf),
            context.custom@,
            *result,
        ),
        final(metrics).request_durations@.len() == old(metrics).request_durations@.len() + 1,
        final(metrics).request_durations@.drop_last() == old(metrics).request_durations@,
        final(metrics).request_durations@.last().0 == duration_ns,
        final(metrics).request_durations@.last().1.deep_view() == spec_subgraph_obs_attrs(
            opt_pairs_view(context.subgraph_attributes),
            subgraph_name@,
            opt_conf_view(conf),
            context.custom@,
            *result,
        ),
{
    let mut attrs: Vec<(String, String)> = Vec::new();
    proof {
        assert(attrs.deep_view() =~= Seq::<(Seq<char>, Seq<char>)>::empty());
    }
    if let Some(stored) = &context.subgraph_attributes {
        extend_pairs(&mut attrs, stored);
    }
    let ghost with_stored = attrs.deep_view();
    proof {
        assert(with_stored =~= opt_pairs_view(context.subgraph_attributes));
    }
    attrs.push((String::from_str("subgraph"), subgraph_name.clone()));
    proof {
        assert(attrs.deep_view() =~= with_stored.push(("subgraph"@, subgraph_name@)));
    }
    let ghost with_name = attrs.deep_view();
    if let Some(c) = conf {
        let from_context = c.get_attributes_from_context(&context.custom);
        extend_pairs(&mut attrs, &from_context);
    }
    let ghost with_context_attrs = attrs.deep_view();
    proof {
        assert(with_context_attrs =~= with_name + (match opt_conf_view(conf) {
            Some(c) => crate::attributes::spec_context_attrs_of_conf(c, context.custom@),
            None => Seq::<(Seq<char>, Seq<char>)>::empty(),
        }));
    }
    match result {
        Ok(resp) => {
            attrs.push((String::from_str("status"), u64_to_dec(resp.status as u64)));
            proof {
                assert(attrs.deep_view() =~= with_context_attrs.push(
                    ("status"@, spec_dec(resp.status as nat)),
                ));
            }
            let ghost with_status = attrs.deep_view();
            if let Some(c) = conf {
                let from_response = c.get_attributes_from_response(&resp.headers, &resp.body);
                extend_pairs(&mut attrs, &from_response);
            }
            proof {
                assert(attrs.deep_view() =~= with_status + (match opt_conf_view(conf) {
                    Some(c) => crate::attributes::spec_response_attrs(c, resp.headers@, resp.body),
                    None => Seq::<(Seq<char>, Seq<char>)>::empty(),
                }));
            }
        },
        Err(e) => {
            if let Some(c) = conf {
                let from_error = c.get_attributes_from_error(&e.message, &e.extensions);
                extend_pairs(&mut attrs, &from_error);
            }
        },
    }
    proof {
        assert(attrs.deep_view() =~= spec_subgraph_obs_attrs(
            opt_pairs_view(context.subgraph_attributes),
            subgraph_name@,
            opt_conf_view(conf),
            context.custom@,
            *result,
        ));
    }
    let attrs_for_duration = clone_pairs(&attrs);
    metrics.add_total(attrs);
    metrics.record_duration(duration_ns, attrs_for_duration);
    proof {
        assert(final(metrics).request_totals@.drop_last() =~= old(metrics).request_totals@);
        assert(final(metrics).request_durations@.drop_last() =~= old(metrics).request_durations@);
    }
}

} // verus!
