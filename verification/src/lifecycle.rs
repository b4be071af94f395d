//! The process-wide telemetry lifecycle: one-shot initialization of the
//! tracing infrastructure, and reference-counted teardown.
//!
//! The registry is the explicit singleton service the instances share. Its
//! gate commits the one initialization; its saturating counter of live
//! instances decides when the last teardown may shut the tracer down. The
//! caller that holds it behind a process-wide lock performs the outside
//! work — building exporters, installing globals — exactly when these
//! methods say so.

use vstd::prelude::*;

verus! {

/// The one-shot initialization gate.
pub enum InitGate {
    Uninitialized,
    Initialized,
}

/// The registry of live telemetry instances and the state of the one-shot
/// initialization. `init_runs` counts executions of the initialization
/// body; `shutdowns` counts teardowns of the global tracer.
pub struct TelemetryRegistry {
    pub gate: InitGate,
    pub init_runs: u64,
    pub refcount: u8,
    pub shutdowns: u64,
}

impl TelemetryRegistry {
    /// The registry a fresh process starts with.
    pub fn new() -> (r: TelemetryRegistry)
        ensures
            r.gate is Uninitialized,
            r.init_runs == 0,
            r.refcount == 0,
            r.shutdowns == 0,
    {
        TelemetryRegistry {
            gate: InitGate::Uninitialized,
            init_runs: 0,
            refcount: 0,
            shutdowns: 0,
        }
    }

    /// Whether the process-wide initialization still has to run.
    pub fn needs_initialization(&self) -> (r: bool)
        ensures
            r == (self.gate is Uninitialized),
    {
        match self.gate {
            InitGate::Uninitialized => true,
            InitGate::Initialized => false,
        }
    }

    /// Commits the one successful execution of the initialization body.
    /// After a failure nothing is committed, and the failure is fatal to
    /// the construction that hit it.
    pub fn complete_initialization(&mut self)
        requires
            old(self).gate is Uninitialized,
            old(self).init_runs < 0xffff_ffff_ffff_ffff,
        ensures
            final(self).gate is Initialized,
            final(self).init_runs == old(self).init_runs + 1,
            final(self).refcount == old(self).refcount,
            final(self).shutdowns == old(self).shutdowns,
    {
        self.gate = InitGate::Initialized;
        self.init_runs = self.init_runs + 1;
    }

    /// Counts one more live instance; the counter saturates rather than
    /// wrapping.
    pub fn register_instance(&mut self)
        ensures
            final(self).refcount == spec_register(old(self).refcount),
            final(self).gate == old(self).gate,
            final(self).init_runs == old(self).init_runs,
            final(self).shutdowns == old(self).shutdowns,
    {
        if self.refcount < 255 {
            self.refcount = self.refcount + 1;
        }
    }

    /// Counts one instance down and says whether it was the last; exactly
    /// then the global tracer is shut down, once.
    pub fn release_instance(&mut self) -> (last: bool)
        requires
            old(self).shutdowns < 0xffff_ffff_ffff_ffff,
        ensures
            last == (old(self).refcount < 2),
            final(self).refcount == spec_release(old(self).refcount),
            final(self).shutdowns == old(self).shutdowns + if last {
                1int
            } else {
                0int
            },
            final(self).gate == old(self).gate,
            final(self).init_runs == old(self).init_runs,
    {
        let last = self.refcount < 2;
        if self.refcount > 0 {
            self.refcount = self.refcount - 1;
        }
        if last {
            self.shutdowns = self.shutdowns + 1;
        }
        last
    }
}

/// One registration's effect on the counter.
pub open spec fn spec_register(refcount: u8) -> u8 {
    if refcount < 255 {
        (refcount + 1) as u8
    } else {
        255u8
    }
}

/// One release's effect on the counter.
pub open spec fn spec_release(refcount: u8) -> u8 {
    if refcount > 0 {
        (refcount - 1) as u8
    } else {
        0u8
    }
}

/// The counter after `k` releases.
pub open spec fn spec_after_releases(refcount: u8, k: nat) -> u8
    decreases k,
{
    if k == 0 {
        refcount
    } else {
        spec_release(spec_after_releases(refcount, (k - 1) as nat))
    }
}

/// How many of `k` releases reported being the last.
pub open spec fn spec_last_count(refcount: u8, k: nat) -> int
    decreases k,
{
    if k == 0 {
        0
    } else {
        spec_last_count(refcount, (k - 1) as nat) + if spec_after_releases(
            refcount,
            (k - 1) as nat,
        ) < 2 {
            1int
        } else {
            0int
        }
    }
}

/// While more releases than instances are still to come, no release is the
/// last one.
proof fn lemma_releases_counting(refcount: u8, k: nat)
    requires
        k < refcount,
    ensures
        spec_after_releases(refcount, k) == refcount - k,
        spec_last_count(refcount, k) == 0,
    decreases k,
{
    if k > 0 {
        lemma_releases_counting(refcount, (k - 1) as nat);
    }
}

/// Reference-counted teardown: after `n` instances registered and `n - 1`
/// released, no release was the last and nothing was shut down; the `n`-th
/// release is the last and shuts the tracer down exactly once.
pub proof fn law_lifecycle_refcount(n: u8)
    requires
        1 <= n,
    ensures
        spec_last_count(n, (n - 1) as nat) == 0,
        spec_after_releases(n, (n - 1) as nat) == 1,
        spec_last_count(n, n as nat) == 1,
        spec_after_releases(n, n as nat) == 0,
{
    lemma_releases_counting(n, (n - 1) as nat);
    assert(spec_after_releases(n, n as nat) == spec_release(spec_after_releases(n, (n - 1) as nat)));
}

// ---------------------------------------------------------------------------
// Propagator composition.
// ---------------------------------------------------------------------------

/// One propagation scheme of the composite propagator.
#[derive(Debug, PartialEq, Eq, Structural)]
pub enum PropagatorKind {
    Jaeger,
    Baggage,
    TraceContext,
    Zipkin,
    Datadog,
    RequestHeader,
}

/// The propagation toggles of the configuration.
pub struct Propagation {
    pub jaeger: bool,
    pub baggage: bool,
    pub trace_context: bool,
    pub zipkin: bool,
    pub datadog: bool,
    pub request_header: Option<String>,
}

/// Which trace exporters the configuration enables; an enabled exporter
/// pulls its propagation scheme in even without the explicit toggle.
pub struct TracingToggles {
    pub jaeger: bool,
    pub otlp: bool,
    pub zipkin: bool,
    pub datadog: bool,
}

/// A singleton or empty list for one scheme.
pub open spec fn kind_if(enabled: bool, kind: PropagatorKind) -> Seq<PropagatorKind> {
    if enabled {
        seq![kind]
    } else {
        Seq::empty()
    }
}

/// The ordered composite propagator a configuration calls for. The
/// legacy-agent scheme stands first: it overwrites the active context even
/// on a miss, so a scheme evaluated before it would be silenced.
pub open spec fn spec_propagator_list(
    propagation: Propagation,
    tracing: TracingToggles,
) -> Seq<PropagatorKind> {
    kind_if(propagation.jaeger || tracing.jaeger, PropagatorKind::Jaeger) + kind_if(
        propagation.baggage,
        PropagatorKind::Baggage,
    ) + kind_if(propagation.trace_context || tracing.otlp, PropagatorKind::TraceContext) + kind_if(
        propagation.zipkin || tracing.zipkin,
        PropagatorKind::Zipkin,
    ) + kind_if(propagation.datadog || tracing.datadog, PropagatorKind::Datadog) + kind_if(
        propagation.request_header is Some,
        PropagatorKind::RequestHeader,
    )
}

/// Builds the ordered propagator list, exactly `spec_propagator_list`.
pub fn create_propagator(propagation: &Propagation, tracing: &TracingToggles) -> (r: Vec<
    PropagatorKind,
>)
    ensures
        r@ == spec_propagator_list(*propagation, *tracing),
{
    let mut kinds: Vec<PropagatorKind> = Vec::new();
    if propagation.jaeger || tracing.jaeger {
        kinds.push(PropagatorKind::Jaeger);
    }
    if propagation.baggage {
        kinds.push(PropagatorKind::Baggage);
    }
    if propagation.trace_context || tracing.otlp {
        kinds.push(PropagatorKind::TraceContext);
    }
    if propagation.zipkin || tracing.zipkin {
        kinds.push(PropagatorKind::Zipkin);
    }
    if propagation.datadog || tracing.datadog {
        kinds.push(PropagatorKind::Datadog);
    }
    if propagation.request_header.is_some() {
        kinds.push(PropagatorKind::RequestHeader);
    }
    proof {
        assert(kinds@ =~= spec_propagator_list(*propagation, *tracing));
    }
    kinds
}

/// The legacy-agent scheme, when present, stands before the generic
/// trace-context scheme, and first of all.
pub proof fn law_legacy_agent_first(propagation: Propagation, tracing: TracingToggles)
    ensures
        spec_propagator_list(propagation, tracing).contains(PropagatorKind::Jaeger)
            ==> spec_propagator_list(propagation, tracing)[0] == PropagatorKind::Jaeger,
        forall|i: int, j: int|
            {
                &&& 0 <= i < spec_propagator_list(propagation, tracing).len()
                &&& 0 <= j < spec_propagator_list(propagation, tracing).len()
                &&& spec_propagator_list(propagation, tracing)[i] == PropagatorKind::Jaeger
                &&& spec_propagator_list(propagation, tracing)[j] == PropagatorKind::TraceContext
            } ==> i < j,
{
    let l = spec_propagator_list(propagation, tracing);
    if l.contains(PropagatorKind::Jaeger) {
        assert((propagation.jaeger || tracing.jaeger)) by {
            if !(propagation.jaeger || tracing.jaeger) {
                let i = choose|i: int| 0 <= i < l.len() && l[i] == PropagatorKind::Jaeger;
                assert(false);
            }
        }
    }
}

// ---------------------------------------------------------------------------
// Builder chains.
// ---------------------------------------------------------------------------

/// A telemetry construction failure: invalid backend configuration is
/// detected here and is fatal to plugin startup.
pub enum ConfigurationError {
    InvalidConfiguration(String),
}

/// The tracing options every backend's applier receives.
pub struct Trace {
    pub service_name: Option<String>,
}

/// The tracer-provider builder under construction; each applied backend
/// and the span-metrics stage add an export pipeline.
pub struct Builder {
    pub pipelines: u64,
}

/// A trace backend: turns its configuration into an export pipeline on the
/// builder, or reports why it cannot.
pub trait TracingConfigurator {
    fn apply(&self, builder: Builder, trace_config: &Trace) -> Result<Builder, ConfigurationError>;
}

/// Applies one optional trace backend: without one the builder passes
/// through untouched; with one, whatever the backend decided comes back.
pub fn setup_tracing<T: TracingConfigurator>(
    builder: Builder,
    configurator: &Option<T>,
    tracing_config: &Trace,
) -> (r: Result<Builder, ConfigurationError>)
    ensures
        configurator is None ==> r == Ok::<Builder, ConfigurationError>(builder),
{
    match configurator {
        Some(config) => config.apply(builder, tracing_config),
        None => Ok(builder),
    }
}

/// The common metrics options: the service identity and the resource
/// attributes every exporter reports.
pub struct MetricsCommon {
    pub service_name: Option<String>,
    pub service_namespace: Option<String>,
    pub resources: Vec<(String, String)>,
}

/// The metrics builder under construction.
pub struct MetricsBuilder {
    pub exporters: u64,
}

/// A metrics backend: turns its configuration into an exporter on the
/// builder, or reports why it cannot.
pub trait MetricsConfigurator {
    fn apply(&self, builder: MetricsBuilder, metrics_common: &MetricsCommon) -> Result<
        MetricsBuilder,
        ConfigurationError,
    >;
}

/// Applies one optional metrics backend: without one the builder passes
/// through untouched; with one, whatever the backend decided comes back.
pub fn setup_metrics_exporter<T: MetricsConfigurator>(
    builder: MetricsBuilder,
    configurator: &Option<T>,
    metrics_common: &MetricsCommon,
) -> (r: Result<MetricsBuilder, ConfigurationError>)
    ensures
        configurator is None ==> r == Ok::<MetricsBuilder, ConfigurationError>(builder),
{
    match configurator {
        Some(config) => config.apply(builder, metrics_common),
        None => Ok(builder),
    }
}

/// The resource key every exporter reports the service name under.
pub open spec fn service_name_key() -> Seq<char> {
    "service.name"@
}

/// Fills the default resources in: a missing service name becomes the
/// configured one or the stock one, and a configured namespace is added;
/// everything already present stays.
pub fn prepare_metrics_resources(common: &mut MetricsCommon)
    ensures
        final(common).service_name == old(common).service_name,
        final(common).service_namespace == old(common).service_namespace,
        crate::attributes::spec_header_lookup(old(common).resources@, "service.name"@) is Some
            ==> crate::attributes::spec_header_lookup(
            final(common).resources@,
            "service.name"@,
        ) == crate::attributes::spec_header_lookup(old(common).resources@, "service.name"@),
        crate::attributes::spec_header_lookup(old(common).resources@, "service.name"@) is None
            ==> (crate::attributes::spec_header_lookup(final(common).resources@, "service.name"@)
            matches Some(v) && v == (match old(common).service_name {
            Some(n) => n@,
            None => "apollo-router"@,
        })),
        old(common).service_namespace matches Some(ns) ==> crate::attributes::spec_header_lookup(
            final(common).resources@,
            "service.namespace"@,
        ) is Some,
{
    let has_name = match crate::attributes::header_lookup(&common.resources, "service.name") {
        Some(_) => true,
        None => false,
    };
    if !has_name {
        let name = match &common.service_name {
            Some(n) => n.clone(),
            None => String::from_str("apollo-router"),
        };
        let ghost before = common.resources@;
        common.resources.push((String::from_str("service.name"), name));
        proof {
            assert(common.resources@ == before.push(common.resources@.last()));
            lemma_lookup_push_value(before, common.resources@.last(), "service.name"@);
        }
    }
    if let Some(ns) = &common.service_namespace {
        let already = match crate::attributes::header_lookup(&common.resources, "service.namespace")
            {
            Some(_) => true,
            None => false,
        };
        if !already {
            let ghost before = common.resources@;
            common.resources.push((String::from_str("service.namespace"), ns.clone()));
            proof {
                assert(common.resources@ == before.push(common.resources@.last()));
                lemma_lookup_push_value(before, common.resources@.last(), "service.namespace"@);
                lemma_lookup_push_other(before, common.resources@.last(), "service.name"@);
            }
        }
    }
}

/// Appending an entry under an absent key makes the lookup find exactly
/// that entry's value.
proof fn lemma_lookup_push_value(entries: Seq<(String, String)>, e: (String, String), key: Seq<char>)
    requires
        e.0@ == key,
        crate::attributes::spec_header_lookup(entries, key) is None,
    ensures
        crate::attributes::spec_header_lookup(entries.push(e), key) == Some(e.1@),
    decreases entries.len(),
{
    if entries.len() == 0 {
        assert(entries.push(e)[0] == e);
        assert(entries.push(e).drop_first() =~= Seq::<(String, String)>::empty());
    } else {
        assert(entries.push(e)[0] == entries[0]);
        assert(entries[0].0@ != key);
        lemma_lookup_push_value(entries.drop_first(), e, key);
        assert(entries.push(e).drop_first() =~= entries.drop_first().push(e));
    }
}

/// Looking a key up ignores a trailing entry under another key.
proof fn lemma_lookup_push_other(entries: Seq<(String, String)>, e: (String, String), key: Seq<char>)
    requires
        e.0@ != key,
    ensures
        crate::attributes::spec_header_lookup(entries.push(e), key)
            == crate::attributes::spec_header_lookup(entries, key),
    decreases entries.len(),
{
    if entries.len() == 0 {
        assert(entries.push(e)[0] == e);
        assert(entries.push(e).drop_first() =~= Seq::<(String, String)>::empty());
        assert(crate::attributes::spec_header_lookup(
            Seq::<(String, String)>::empty(),
            key,
        ) is None);
        assert(entries.push(e)[0].0@ != key);
        assert(crate::attributes::spec_header_lookup(entries.push(e), key) is None);
        assert(crate::attributes::spec_header_lookup(entries, key) is None);
    } else {
        assert(entries.push(e)[0] == entries[0]);
        assert(entries.push(e).len() > 0);
        if entries[0].0@ == key {
            assert(crate::attributes::spec_header_lookup(entries.push(e), key) == Some(
                entries[0].1@,
            ));
            assert(crate::attributes::spec_header_lookup(entries, key) == Some(entries[0].1@));
        } else {
            lemma_lookup_push_other(entries.drop_first(), e, key);
            assert(entries.push(e).drop_first() =~= entries.drop_first().push(e));
        }
    }
}

/// Attaches the span-metrics stage: the one pipeline the core itself adds
/// to the tracer provider.
pub fn attach_span_metrics_stage(builder: Builder) -> (r: Builder)
    ensures
        r.pipelines == spec_one_more_pipeline(builder.pipelines),
{
    if builder.pipelines < 0xffff_ffff_ffff_ffff {
        Builder { pipelines: builder.pipelines + 1 }
    } else {
        builder
    }
}

/// One more pipeline, saturating.
pub open spec fn spec_one_more_pipeline(pipelines: u64) -> u64 {
    if pipelines < 0xffff_ffff_ffff_ffff {
        (pipelines + 1) as u64
    } else {
        pipelines
    }
}

/// Builds the tracer provider's pipeline set: every enabled trace backend
/// applies in turn, then the span-metrics stage is attached; with no
/// backend enabled the result is exactly that one stage. A backend's
/// failure comes back unchanged and is fatal to construction.
pub fn create_tracer_provider<J: TracingConfigurator, Z: TracingConfigurator, D: TracingConfigurator, O: TracingConfigurator, A: TracingConfigurator>(
    jaeger: &Option<J>,
    zipkin: &Option<Z>,
    datadog: &Option<D>,
    otlp: &Option<O>,
    apollo: &Option<A>,
    trace_config: &Trace,
) -> (r: Result<Builder, ConfigurationError>)
    ensures
        (jaeger is None && zipkin is None && datadog is None && otlp is None && apollo is None)
            ==> r == Ok::<Builder, ConfigurationError>(Builder { pipelines: 1 }),
{
    let builder = Builder { pipelines: 0 };
    let builder = match setup_tracing(builder, jaeger, trace_config) {
        Ok(b) => b,
        Err(e) => {
            return Err(e);
        },
    };
    let builder = match setup_tracing(builder, zipkin, trace_config) {
        Ok(b) => b,
        Err(e) => {
            return Err(e);
        },
    };
    let builder = match setup_tracing(builder, datadog, trace_config) {
        Ok(b) => b,
        Err(e) => {
            return Err(e);
        },
    };
    let builder = match setup_tracing(builder, otlp, trace_config) {
        Ok(b) => b,
        Err(e) => {
            return Err(e);
        },
    };
    let builder = match setup_tracing(builder, apollo, trace_config) {
        Ok(b) => b,
        Err(e) => {
            return Err(e);
        },
    };
    Ok(attach_span_metrics_stage(builder))
}

/// Builds the metrics exporters: the default resources are filled in
/// first, then every enabled metrics backend applies in turn; with no
/// backend enabled the result is an empty exporter set over the defaulted
/// resources. A backend's failure comes back unchanged and is fatal to
/// construction.
pub fn create_metrics_exporters<A: MetricsConfigurator, P: MetricsConfigurator, O: MetricsConfigurator>(
    common: &mut MetricsCommon,
    apollo: &Option<A>,
    prometheus: &Option<P>,
    otlp: &Option<O>,
) -> (r: Result<MetricsBuilder, ConfigurationError>)
    ensures
        (apollo is None && prometheus is None && otlp is None)
            ==> r == Ok::<MetricsBuilder, ConfigurationError>(MetricsBuilder { exporters: 0 }),
        crate::attributes::spec_header_lookup(final(common).resources@, "service.name"@) is Some,
{
    prepare_metrics_resources(common);
    let builder = MetricsBuilder { exporters: 0 };
    let builder = match setup_metrics_exporter(builder, apollo, common) {
        Ok(b) => b,
        Err(e) => {
            return Err(e);
        },
    };
    let builder = match setup_metrics_exporter(builder, prometheus, common) {
        Ok(b) => b,
        Err(e) => {
            return Err(e);
        },
    };
    let builder = match setup_metrics_exporter(builder, otlp, common) {
        Ok(b) => b,
        Err(e) => {
            return Err(e);
        },
    };
    Ok(builder)
}

} // verus!
