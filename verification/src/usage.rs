//! The usage-reporting aggregator: one stats record per logical operation,
//! whatever the shape of the response.
//!
//! The execution engine leaves a usage record in the request context; on the
//! terminating increment of the response the aggregator builds exactly one
//! stats record from it and hands it to the submission sender. A missing
//! record still counts as one operation; an excluded request keeps only the
//! operation count; errors seen in any increment stick to the final record.

use vstd::prelude::*;

use rand::Rng;

use crate::json::{spec_member, JsonValue};
use crate::span::{AttrValue, Span};

verus! {

/// The fields one GraphQL type contributed to the operation, as the planner
/// reported them.
pub struct ReferencedFieldsForType {
    pub field_names: Vec<String>,
    pub is_interface: bool,
}

/// What the planner left in the request context: the normalized operation
/// signature and the referenced fields per type.
pub struct UsageReporting {
    pub stats_report_key: String,
    pub referenced_fields_by_type: Vec<(String, ReferencedFieldsForType)>,
}

/// The per-request context the boundaries share. Each well-known key is a
/// field with its fixed value type; free-form entries that forwarding
/// policies may read sit in `custom`.
pub struct Context {
    pub usage_reporting: Option<UsageReporting>,
    pub client_name: Option<String>,
    pub client_version: Option<String>,
    pub persisted_query_hit: Option<bool>,
    pub studio_exclude: Option<bool>,
    pub attributes: Option<Vec<(String, String)>>,
    pub subgraph_attributes: Option<Vec<(String, String)>>,
    pub logging_display_headers: bool,
    pub logging_display_body: bool,
    pub custom: Vec<(String, String)>,
}

impl Context {
    /// A fresh request context with nothing recorded.
    pub fn new() -> (r: Context)
        ensures
            r.usage_reporting is None,
            r.client_name is None,
            r.client_version is None,
            r.persisted_query_hit is None,
            r.studio_exclude is None,
            r.attributes is None,
            r.subgraph_attributes is None,
            !r.logging_display_headers,
            !r.logging_display_body,
            r.custom@.len() == 0,
    {
        Context {
            usage_reporting: None,
            client_name: None,
            client_version: None,
            persisted_query_hit: None,
            studio_exclude: None,
            attributes: None,
            subgraph_attributes: None,
            logging_display_headers: false,
            logging_display_body: false,
            custom: Vec::new(),
        }
    }
}

/// The client identity attached to a stats record.
pub struct StatsContext {
    pub client_name: String,
    pub client_version: String,
}

/// Latency and outcome of one operation.
pub struct SingleQueryLatencyStats {
    pub latency_ns: u64,
    pub has_errors: bool,
    pub persisted_query_hit: bool,
}

/// One operation's stats in its client context.
pub struct SingleContextualizedStats {
    pub context: StatsContext,
    pub query_latency_stats: SingleQueryLatencyStats,
}

/// The full detail recorded under one operation signature.
pub struct SingleStats {
    pub stats_with_context: SingleContextualizedStats,
    pub referenced_fields_by_type: Vec<(String, ReferencedFieldsForType)>,
}

/// One usage record: at most one stats entry, keyed by the operation
/// signature.
pub struct SingleStatsReport {
    pub request_id: u128,
    pub operation_count: u64,
    pub stats: Option<(String, SingleStats)>,
}

/// The submission endpoint: either reporting is disabled, or records go to
/// the background worker. The model keeps what was submitted.
pub enum SenderKind {
    Noop,
    Apollo,
}

/// A cloneable handle to the submission worker; `sent` stands for what the
/// worker has received through this handle.
pub struct Sender {
    pub kind: SenderKind,
    pub sent: Vec<SingleStatsReport>,
}

// ---------------------------------------------------------------------------
// Operation counting.
// ---------------------------------------------------------------------------

/// A signature opening with the planning-failure marker counts as no
/// operation; any other signature counts as one.
pub open spec fn spec_operation_count(stats_report_key: Seq<char>) -> u64 {
    if crate::text::spec_starts_with(stats_report_key, "## "@) {
        0u64
    } else {
        1u64
    }
}

/// Counts the operations a signature stands for, exactly
/// `spec_operation_count`.
pub fn operation_count(stats_report_key: &str) -> (r: u64)
    ensures
        r == spec_operation_count(stats_report_key@),
{
    if crate::text::str_starts_with(stats_report_key, "## ") {
        0
    } else {
        1
    }
}

// ---------------------------------------------------------------------------
// Building the record.
// ---------------------------------------------------------------------------

/// The views of the referenced-fields entries.
pub open spec fn ref_fields_view(entries: Seq<(String, ReferencedFieldsForType)>) -> Seq<
    (Seq<char>, (Seq<Seq<char>>, bool)),
> {
    entries.map_values(
        |e: (String, ReferencedFieldsForType)|
            (e.0@, (e.1.field_names@.map_values(|n: String| n@), e.1.is_interface)),
    )
}

/// An option's string view, with the empty string for nothing.
pub open spec fn str_or_empty(o: Option<String>) -> Seq<char> {
    match o {
        Some(s) => s@,
        None => Seq::empty(),
    }
}

/// Whether the request was marked excluded from detailed reporting.
pub open spec fn spec_excluded(ctx: Context) -> bool {
    ctx.studio_exclude == Some(true)
}

/// What the one record emitted for an operation must hold, given the
/// context, the accumulated error flag, the elapsed time and the trace
/// identifier:
/// - without usage metadata: one operation, no detail;
/// - excluded from detailed reporting: the signature's operation count, no
///   detail;
/// - otherwise: the full stats entry under the signature.
pub open spec fn report_matches(
    r: SingleStatsReport,
    ctx: Context,
    has_errors: bool,
    duration_ns: u64,
    trace_id: u128,
) -> bool {
    match ctx.usage_reporting {
        None => r.operation_count == 1 && r.stats is None && r.request_id == 0,
        Some(u) => if spec_excluded(ctx) {
            r.operation_count == spec_operation_count(u.stats_report_key@) && r.stats is None
                && r.request_id == 0
        } else {
            &&& r.request_id == trace_id
            &&& r.operation_count == spec_operation_count(u.stats_report_key@)
            &&& match r.stats {
                Some(entry) => {
                    &&& entry.0@ == u.stats_report_key@
                    &&& entry.1.stats_with_context.context.client_name@ == str_or_empty(
                        ctx.client_name,
                    )
                    &&& entry.1.stats_with_context.context.client_version@ == str_or_empty(
                        ctx.client_version,
                    )
                    &&& entry.1.stats_with_context.query_latency_stats.latency_ns == duration_ns
                    &&& entry.1.stats_with_context.query_latency_stats.has_errors == has_errors
                    &&& entry.1.stats_with_context.query_latency_stats.persisted_query_hit == (
                    ctx.persisted_query_hit == Some(true))
                    &&& ref_fields_view(entry.1.referenced_fields_by_type@) == ref_fields_view(
                        u.referenced_fields_by_type@,
                    )
                },
                None => false,
            }
        },
    }
}

/// Copies the referenced-fields entries, keeping their views.
#[verifier::loop_isolation(false)]
fn clone_ref_fields(src: &Vec<(String, ReferencedFieldsForType)>) -> (r: Vec<
    (String, ReferencedFieldsForType),
>)
    ensures
        ref_fields_view(r@) == ref_fields_view(src@),
{
    let mut out: Vec<(String, ReferencedFieldsForType)> = Vec::new();
    let mut i: usize = 0;
    proof {
        assert(ref_fields_view(out@) =~= ref_fields_view(src@).subrange(0, 0));
    }
    while i < src.len()
        invariant
            i <= src.len(),
            ref_fields_view(out@) == ref_fields_view(src@).subrange(0, i as int),
        decreases src.len() - i,
    {
        let mut names: Vec<String> = Vec::new();
        let mut j: usize = 0;
        let entry_names = &src[i].1.field_names;
        while j < entry_names.len()
            invariant
                j <= entry_names.len(),
                names@.map_values(|n: String| n@) =~= entry_names@.map_values(
                    |n: String| n@,
                ).subrange(0, j as int),
            decreases entry_names.len() - j,
        {
            let ghost pre_names = names@;
            names.push(entry_names[j].clone());
            proof {
                assert(forall|k: int| 0 <= k < pre_names.len() ==> names@[k] == pre_names[k]);
                assert(names@.map_values(|n: String| n@) =~= entry_names@.map_values(
                    |n: String| n@,
                ).subrange(0, j + 1));
            }
            j += 1;
        }
        proof {
            assert(entry_names@.map_values(|n: String| n@).subrange(
                0,
                entry_names@.len() as int,
            ) =~= entry_names@.map_values(|n: String| n@));
        }
        let item = (
            src[i].0.clone(),
            ReferencedFieldsForType { field_names: names, is_interface: src[i].1.is_interface },
        );
        let ghost item_view = (item.0@, (item.1.field_names@.map_values(|n: String| n@), item.1.is_interface));
        let ghost pre_out = out@;
        out.push(item);
        proof {
            assert(item_view == ref_fields_view(src@)[i as int]);
            assert(ref_fields_view(out@) =~= ref_fields_view(src@).subrange(0, i + 1)) by {
                assert(forall|k: int| 0 <= k < pre_out.len() ==> out@[k] == pre_out[k]);
                assert(out@.last() == out@[pre_out.len() as int]);
            }
        }
        i += 1;
    }
    proof {
        assert(ref_fields_view(src@).subrange(0, src@.len() as int) =~= ref_fields_view(src@));
    }
    out
}

/// Builds the one usage record for a completed operation and hands it to
/// the sender. The record is exactly what `report_matches` pins down.
pub fn update_apollo_metrics(
    context: &Context,
    sender: &mut Sender,
    has_errors: bool,
    duration_ns: u64,
    trace_id: u128,
)
    ensures
        final(sender).kind == old(sender).kind,
        final(sender).sent@.len() == old(sender).sent@.len() + 1,
        final(sender).sent@.drop_last() == old(sender).sent@,
        report_matches(final(sender).sent@.last(), *context, has_errors, duration_ns, trace_id),
{
    let report: SingleStatsReport = match &context.usage_reporting {
        None => SingleStatsReport { request_id: 0, operation_count: 1, stats: None },
        Some(u) => {
            let count = operation_count(u.stats_report_key.as_str());
            let excluded = match context.studio_exclude {
                Some(x) => x,
                None => false,
            };
            if excluded {
                SingleStatsReport { request_id: 0, operation_count: count, stats: None }
            } else {
                let client_name = match &context.client_name {
                    Some(c) => c.clone(),
                    None => String::new(),
                };
                let client_version = match &context.client_version {
                    Some(c) => c.clone(),
                    None => String::new(),
                };
                let persisted_query_hit = match context.persisted_query_hit {
                    Some(h) => h,
                    None => false,
                };
                SingleStatsReport {
                    request_id: trace_id,
                    operation_count: count,
                    stats: Some(
                        (
                            u.stats_report_key.clone(),
                            SingleStats {
                                stats_with_context: SingleContextualizedStats {
                                    context: StatsContext { client_name, client_version },
                                    query_latency_stats: SingleQueryLatencyStats {
                                        latency_ns: duration_ns,
                                        has_errors,
                                        persisted_query_hit,
                                    },
                                },
                                referenced_fields_by_type: clone_ref_fields(
                                    &u.referenced_fields_by_type,
                                ),
                            },
                        ),
                    ),
                }
            }
        },
    };
    proof {
        assert(report_matches(report, *context, has_errors, duration_ns, trace_id));
    }
    sender.sent.push(report);
    proof {
        assert(final(sender).sent@.drop_last() =~= old(sender).sent@);
    }
}

// ---------------------------------------------------------------------------
// Streamed responses.
// ---------------------------------------------------------------------------

/// One increment of a streamed response: whether it carried errors and
/// whether more increments follow.
pub struct ResponseIncrement {
    pub has_errors: bool,
    pub has_next: bool,
}

/// The running state of a streamed response: the error flag accumulated so
/// far. Once set it stays set.
pub struct StreamState {
    pub has_errors: bool,
}

/// The error flag after folding the increments over an initial flag.
pub open spec fn spec_errors_after(init: bool, increments: Seq<ResponseIncrement>) -> bool
    decreases increments.len(),
{
    if increments.len() == 0 {
        init
    } else {
        spec_errors_after(init, increments.drop_last()) || increments.last().has_errors
    }
}

/// How many records a stream of increments causes to be submitted.
pub open spec fn spec_emission_count(increments: Seq<ResponseIncrement>, noop: bool) -> int
    decreases increments.len(),
{
    if increments.len() == 0 {
        0
    } else {
        spec_emission_count(increments.drop_last(), noop) + if !increments.last().has_next
            && !noop {
            1int
        } else {
            0int
        }
    }
}

/// The error flag accumulates across increments: it is set in the end
/// exactly when it started set or some increment carried an error.
pub proof fn law_error_flag_accumulates(init: bool, increments: Seq<ResponseIncrement>)
    ensures
        spec_errors_after(init, increments) == (init || exists|i: int|
            0 <= i < increments.len() && increments[i].has_errors),
    decreases increments.len(),
{
    if increments.len() > 0 {
        law_error_flag_accumulates(init, increments.drop_last());
        if increments.last().has_errors {
            assert(increments[increments.len() - 1].has_errors);
        } else if exists|i: int| 0 <= i < increments.len() && increments[i].has_errors {
            let i = choose|i: int| 0 <= i < increments.len() && increments[i].has_errors;
            assert(increments.drop_last()[i].has_errors);
        }
    }
}

/// A well-formed stream ends with its only terminating increment.
pub open spec fn spec_well_formed_stream(increments: Seq<ResponseIncrement>) -> bool {
    &&& increments.len() >= 1
    &&& forall|i: int| 0 <= i < increments.len() - 1 ==> (#[trigger] increments[i]).has_next
    &&& !increments.last().has_next
}

/// Exactly one record is submitted per completed operation: a well-formed
/// stream of any length causes one emission when reporting is on, and none
/// when it is off.
pub proof fn law_one_record_per_operation(increments: Seq<ResponseIncrement>, noop: bool)
    requires
        spec_well_formed_stream(increments),
    ensures
        spec_emission_count(increments, noop) == if noop {
            0int
        } else {
            1int
        },
{
    law_emission_count_prefix(increments, noop);
}

/// In a stream whose non-final increments all continue, only the final
/// increment can emit.
proof fn law_emission_count_prefix(increments: Seq<ResponseIncrement>, noop: bool)
    requires
        forall|i: int| 0 <= i < increments.len() - 1 ==> (#[trigger] increments[i]).has_next,
        increments.len() >= 1,
    ensures
        spec_emission_count(increments, noop) == if !increments.last().has_next && !noop {
            1int
        } else {
            0int
        },
    decreases increments.len(),
{
    let pre = increments.drop_last();
    if increments.len() == 1 {
        assert(pre.len() == 0);
        assert(spec_emission_count(pre, noop) == 0);
    } else {
        assert forall|i: int| 0 <= i < pre.len() - 1 implies (#[trigger] pre[i]).has_next by {
            assert(pre[i] == increments[i]);
        }
        assert(pre.last() == increments[increments.len() - 2]);
        assert(pre.last().has_next);
        law_emission_count_prefix(pre, noop);
        assert(spec_emission_count(pre, noop) == 0);
    }
    assert(spec_emission_count(increments, noop) == spec_emission_count(pre, noop)
        + if !increments.last().has_next && !noop { 1int } else { 0int });
}

/// Folds one response increment into the stream state: the error flag
/// accumulates, and exactly on a terminating increment with reporting on,
/// one record is built and submitted.
pub fn process_increment(
    state: &mut StreamState,
    increment: &ResponseIncrement,
    context: &Context,
    sender: &mut Sender,
    duration_ns: u64,
    trace_id: u128,
)
    ensures
        final(state).has_errors == (old(state).has_errors || increment.has_errors),
        final(sender).kind == old(sender).kind,
        (!increment.has_next && !(old(sender).kind is Noop)) ==> {
            &&& final(sender).sent@.len() == old(sender).sent@.len() + 1
            &&& final(sender).sent@.drop_last() == old(sender).sent@
            &&& report_matches(
                final(sender).sent@.last(),
                *context,
                old(state).has_errors || increment.has_errors,
                duration_ns,
                trace_id,
            )
        },
        (increment.has_next || old(sender).kind is Noop) ==> final(sender).sent@ == old(
            sender,
        ).sent@,
{
    if increment.has_errors {
        state.has_errors = true;
    }
    let noop = match sender.kind {
        SenderKind::Noop => true,
        SenderKind::Apollo => false,
    };
    if !increment.has_next && !noop {
        update_apollo_metrics(context, sender, state.has_errors, duration_ns, trace_id);
        proof {
            assert(final(sender).sent@.drop_last() =~= old(sender).sent@);
        }
    }
}

/// Folds a whole stream of increments, exactly the spec fold: the final
/// error flag is the accumulated one, and the number of submitted records
/// is the stream's emission count — one for a well-formed stream.
#[verifier::loop_isolation(false)]
pub fn process_response_stream(
    state: &mut StreamState,
    increments: &Vec<ResponseIncrement>,
    context: &Context,
    sender: &mut Sender,
    duration_ns: u64,
    trace_id: u128,
)
    ensures
        final(state).has_errors == spec_errors_after(old(state).has_errors, increments@),
        final(sender).kind == old(sender).kind,
        final(sender).sent@.len() == old(sender).sent@.len() + spec_emission_count(
            increments@,
            old(sender).kind is Noop,
        ),
        (spec_well_formed_stream(increments@) && !(old(sender).kind is Noop)) ==> {
            &&& final(sender).sent@.len() == old(sender).sent@.len() + 1
            &&& final(sender).sent@.drop_last() == old(sender).sent@
            &&& report_matches(
                final(sender).sent@.last(),
                *context,
                spec_errors_after(old(state).has_errors, increments@),
                duration_ns,
                trace_id,
            )
        },
{
    let ghost wf = spec_well_formed_stream(increments@) && !(old(sender).kind is Noop);
    let mut i: usize = 0;
    proof {
        assert(increments@.subrange(0, 0) =~= Seq::<ResponseIncrement>::empty());
    }
    while i < increments.len()
        invariant
            i <= increments.len(),
            state.has_errors == spec_errors_after(
                old(state).has_errors,
                increments@.subrange(0, i as int),
            ),
            sender.kind == old(sender).kind,
            sender.sent@.len() == old(sender).sent@.len() + spec_emission_count(
                increments@.subrange(0, i as int),
                old(sender).kind is Noop,
            ),
            (wf && i < increments@.len()) ==> sender.sent@ == old(sender).sent@,
            (wf && i == increments@.len()) ==> {
                &&& sender.sent@.len() == old(sender).sent@.len() + 1
                &&& sender.sent@.drop_last() == old(sender).sent@
                &&& report_matches(
                    sender.sent@.last(),
                    *context,
                    spec_errors_after(old(state).has_errors, increments@),
                    duration_ns,
                    trace_id,
                )
            },
        decreases increments.len() - i,
    {
        proof {
            assert(increments@.subrange(0, i + 1).drop_last() =~= increments@.subrange(
                0,
                i as int,
            ));
            assert(increments@.subrange(0, i + 1).last() == increments@[i as int]);
        }
        let ghost flag_before = state.has_errors;
        process_increment(state, &increments[i], context, sender, duration_ns, trace_id);
        proof {
            if wf {
                if i + 1 < increments@.len() {
                    assert(increments@[i as int].has_next);
                } else {
                    assert(i + 1 == increments@.len());
                    assert(!increments@[i as int].has_next);
                    assert(state.has_errors == spec_errors_after(
                        old(state).has_errors,
                        increments@.subrange(0, i + 1),
                    ));
                    assert(increments@.subrange(0, increments@.len() as int) =~= increments@);
                }
            }
        }
        i += 1;
    }
    proof {
        assert(increments@.subrange(0, increments@.len() as int) =~= increments@);
    }
}

// ---------------------------------------------------------------------------
// Field-level tracing.
// ---------------------------------------------------------------------------

/// Relies on rand's `thread_rng` and `Rng::gen_ratio`: the result is true
/// with probability numerator/denominator; it is guaranteed false when the
/// numerator is zero and guaranteed true when it equals the denominator.
/// `gen_ratio` panics when the denominator is zero or smaller than the
/// numerator, which the precondition rules out.
#[verifier::external_body]
fn draw_ratio(numerator: u32, denominator: u32) -> (r: bool)
    requires
        denominator > 0,
        numerator <= denominator,
    ensures
        numerator == 0 ==> !r,
        numerator == denominator ==> r,
{
    rand::thread_rng().gen_ratio(numerator, denominator)
}

/// Whether field-level tracing is on for the calls this handler covers.
#[derive(Clone, Copy, Debug, PartialEq, Eq, Structural)]
pub enum ApolloFtv1Handler {
    Enabled,
    Disabled,
}

/// Draws the field-level-tracing decision once, from the configured ratio
/// expressed as a percentage: never enabled at zero, always at a hundred.
pub fn apollo_handler(field_level_instrumentation_percent: u32) -> (r: ApolloFtv1Handler)
    requires
        field_level_instrumentation_percent <= 100,
    ensures
        field_level_instrumentation_percent == 0 ==> r == ApolloFtv1Handler::Disabled,
        field_level_instrumentation_percent == 100 ==> r == ApolloFtv1Handler::Enabled,
{
    if draw_ratio(field_level_instrumentation_percent, 100) {
        ApolloFtv1Handler::Enabled
    } else {
        ApolloFtv1Handler::Disabled
    }
}

impl ApolloFtv1Handler {
    /// Marks an outbound subgraph request for a trace fragment, but only
    /// when the handler is enabled and the current span is sampled: the
    /// marker header is appended exactly then.
    pub fn request_ftv1(&self, headers: &mut Vec<(String, String)>, sampled: bool)
        ensures
            (*self == ApolloFtv1Handler::Enabled && sampled) ==> {
                &&& final(headers)@.len() == old(headers)@.len() + 1
                &&& final(headers)@.drop_last() == old(headers)@
                &&& final(headers)@.last().0@ == "apollo-federation-include-trace"@
                &&& final(headers)@.last().1@ == "ftv1"@
            },
            !(*self == ApolloFtv1Handler::Enabled && sampled) ==> final(headers)@ == old(
                headers,
            )@,
    {
        if let ApolloFtv1Handler::Enabled = self {
            if sampled {
                headers.push(
                    (
                        String::from_str("apollo-federation-include-trace"),
                        String::from_str("ftv1"),
                    ),
                );
                proof {
                    assert(final(headers)@.drop_last() =~= old(headers)@);
                }
            }
        }
    }

    /// Stashes a subgraph response's trace fragment on the current span:
    /// when the handler is enabled and the response extensions carry a text
    /// fragment, it is recorded under the private attribute, and nothing
    /// changes otherwise.
    #[verifier::loop_isolation(false)]
    pub fn store_ftv1(&self, extensions: &JsonValue, span: &mut Span)
        ensures
            final(span).name == old(span).name,
            final(span).sampled == old(span).sampled,
            match spec_ftv1_fragment(*extensions) {
                Some(fragment) => if *self == ApolloFtv1Handler::Enabled {
                    &&& final(span).attributes@.len() == old(span).attributes@.len() + 1
                    &&& final(span).attributes@.drop_last() == old(span).attributes@
                    &&& final(span).attributes@.last().0@ == "apollo_private.ftv1"@
                    &&& final(span).attributes@.last().1 matches AttrValue::Text(s) && s@
                        == fragment
                } else {
                    final(span).attributes@ == old(span).attributes@
                },
                None => final(span).attributes@ == old(span).attributes@,
            },
    {
        if let ApolloFtv1Handler::Enabled = self {
            if let JsonValue::Object(fields) = extensions {
                proof {
                    assert(*extensions == JsonValue::Object(*fields));
                }
                let mut i: usize = 0;
                proof {
                    assert(fields@.subrange(0, fields@.len() as int) =~= fields@);
                }
                while i < fields.len()
                    invariant
                        i <= fields.len(),
                        forall|j: int| 0 <= j < i ==> fields@[j].0@ != "ftv1"@,
                        spec_member(fields@, "ftv1"@) == spec_member(
                            fields@.subrange(i as int, fields@.len() as int),
                            "ftv1"@,
                        ),
                        *span == *old(span),
                    decreases fields.len() - i,
                {
                    proof {
                        let rest = fields@.subrange(i as int, fields@.len() as int);
                        assert(rest[0] == fields@[i as int]);
                        assert(rest.drop_first() =~= fields@.subrange(
                            i + 1,
                            fields@.len() as int,
                        ));
                    }
                    if crate::text::str_eq(fields[i].0.as_str(), "ftv1") {
                        proof {
                            assert(spec_member(fields@, "ftv1"@) == Some(fields@[i as int].1));
                        }
                        if let JsonValue::Text(fragment) = &fields[i].1 {
                            proof {
                                assert(spec_ftv1_fragment(*extensions) == Some(fragment@));
                            }
                            span.record(
                                String::from_str("apollo_private.ftv1"),
                                AttrValue::Text(fragment.clone()),
                            );
                            proof {
                                assert(final(span).attributes@.drop_last() =~= old(
                                    span,
                                ).attributes@);
                            }
                        } else {
                            proof {
                                assert(spec_ftv1_fragment(*extensions) is None);
                            }
                        }
                        return;
                    }
                    i += 1;
                }
                proof {
                    assert(fields@.subrange(fields@.len() as int, fields@.len() as int)
                        =~= Seq::<(String, JsonValue)>::empty());
                }
            }
        }
    }
}

/// The trace fragment a subgraph response carries, when its extensions hold
/// a text value under the marker key.
pub open spec fn spec_ftv1_fragment(extensions: JsonValue) -> Option<Seq<char>> {
    match extensions {
        JsonValue::Object(fields) => match spec_member(fields@, "ftv1"@) {
            Some(JsonValue::Text(s)) => Some(s@),
            _ => None,
        },
        _ => None,
    }
}

} // verus!
