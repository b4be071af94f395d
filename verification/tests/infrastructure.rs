//! Lifecycle, propagation, span export, JSON rendering and endpoints.

use router_telemetry::forward::{
    filter_headers, filter_variables_values, ForwardHeaders, ForwardValues,
};
use router_telemetry::endpoint::{
    endpoint_from_string, max_concurrent_exports_default, max_export_batch_size_default,
    max_export_timeout_default, max_queue_size_default, parse_url_for_endpoint,
    scheduled_delay_default, AgentEndpoint, BatchProcessorConfig, EndpointError,
};
use router_telemetry::json::{json_to_string, resolve, JsonValue, PathSegment};
use router_telemetry::lifecycle::{
    create_propagator, Propagation, PropagatorKind, TelemetryRegistry, TracingToggles,
};
use router_telemetry::propagator::{
    format_trace_id, trace_id_from_hex, CustomTraceIdPropagator, SpanContext,
};
use router_telemetry::span::{filter_span_attributes, has_private_attribute, AttrValue};
use router_telemetry::text::{str_starts_with, u64_to_dec};

#[test]
fn lifecycle_refcounting_shuts_down_exactly_once() {
    let mut registry = TelemetryRegistry::new();
    assert!(registry.needs_initialization());
    registry.complete_initialization();
    assert!(!registry.needs_initialization());
    assert_eq!(registry.init_runs, 1);

    let n = 3;
    for _ in 0..n {
        registry.register_instance();
    }
    assert_eq!(registry.refcount, 3);
    // Tearing down all but the last instance never triggers a shutdown.
    assert!(!registry.release_instance());
    assert!(!registry.release_instance());
    assert_eq!(registry.shutdowns, 0);
    // The last teardown does, exactly once.
    assert!(registry.release_instance());
    assert_eq!(registry.shutdowns, 1);
    assert_eq!(registry.refcount, 0);
}

#[test]
fn propagator_order_puts_the_legacy_agent_first() {
    let propagation = Propagation {
        jaeger: true,
        baggage: true,
        trace_context: true,
        zipkin: false,
        datadog: false,
        request_header: Some("x-corr".to_string()),
    };
    let tracing = TracingToggles { jaeger: false, otlp: false, zipkin: false, datadog: false };
    let kinds = create_propagator(&propagation, &tracing);
    assert_eq!(
        kinds,
        vec![
            PropagatorKind::Jaeger,
            PropagatorKind::Baggage,
            PropagatorKind::TraceContext,
            PropagatorKind::RequestHeader,
        ]
    );
    // A configured exporter pulls its scheme in without the toggle.
    let bare = Propagation {
        jaeger: false,
        baggage: false,
        trace_context: false,
        zipkin: false,
        datadog: false,
        request_header: None,
    };
    let exporters = TracingToggles { jaeger: true, otlp: true, zipkin: true, datadog: true };
    let pulled = create_propagator(&bare, &exporters);
    assert_eq!(
        pulled,
        vec![
            PropagatorKind::Jaeger,
            PropagatorKind::TraceContext,
            PropagatorKind::Zipkin,
            PropagatorKind::Datadog,
        ]
    );
}

#[test]
fn trace_ids_parse_and_format() {
    assert_eq!(
        trace_id_from_hex("58406520a006649127e371903a2de979"),
        Some(0x58406520a006649127e371903a2de979)
    );
    assert_eq!(trace_id_from_hex("42"), Some(0x42));
    assert_eq!(trace_id_from_hex("+ff"), Some(0xff));
    assert_eq!(trace_id_from_hex("0000000000000000000000000000000000ff"), Some(0xff));
    assert_eq!(trace_id_from_hex("not_hex"), None);
    assert_eq!(trace_id_from_hex(""), None);
    assert_eq!(trace_id_from_hex("+"), None);
    // 33 significant digits overflow the identifier.
    assert_eq!(trace_id_from_hex("100000000000000000000000000000000"), None);
    assert_eq!(format_trace_id(0xff), "000000000000000000000000000000ff");
    let id = 0x58406520a006649127e371903a2de979u128;
    assert_eq!(trace_id_from_hex(&format_trace_id(id)), Some(id));
}

#[test]
fn propagator_reads_and_writes_its_header() {
    let propagator = CustomTraceIdPropagator::new("x-correlation".to_string());
    assert_eq!(propagator.fields(), &vec!["x-correlation".to_string()]);
    let carrier = vec![("x-correlation".to_string(), "abc".to_string())];
    let cx = propagator.extract_with_context(&carrier);
    assert_eq!(cx.trace_id, 0xabc);
    assert!(cx.sampled);
    assert!(cx.remote);
    // An unreadable value extracts the empty context.
    let bad = vec![("x-correlation".to_string(), "zzz".to_string())];
    let empty = propagator.extract_with_context(&bad);
    assert_eq!(empty.trace_id, 0);
    assert!(!empty.sampled);
    // A valid context round-trips through injection.
    let mut outbound: Vec<(String, String)> = Vec::new();
    let live = SpanContext { trace_id: 0xabc, span_id: 1, sampled: true, remote: false };
    propagator.inject_context(&live, &mut outbound);
    assert_eq!(outbound.len(), 1);
    assert_eq!(outbound[0].0, "x-correlation");
    let back = propagator.extract_span_context(&outbound).expect("readable");
    assert_eq!(back.trace_id, 0xabc);
    // An invalid context injects nothing.
    let mut untouched: Vec<(String, String)> = Vec::new();
    propagator.inject_context(&SpanContext::empty_context(), &mut untouched);
    assert!(untouched.is_empty());
}

#[test]
fn span_export_strips_internal_attributes_only() {
    let attrs = vec![
        ("graphql.document".to_string(), AttrValue::Text("query { test }".to_string())),
        ("apollo_private.ftv1".to_string(), AttrValue::Text("secret".to_string())),
        ("otel.kind".to_string(), AttrValue::Text("INTERNAL".to_string())),
        ("apollo_private.duration_ns".to_string(), AttrValue::Int(5)),
    ];
    assert!(has_private_attribute(&attrs));
    let filtered = filter_span_attributes(&attrs);
    assert_eq!(filtered.len(), 2);
    assert_eq!(filtered[0].0, "graphql.document");
    assert_eq!(filtered[1].0, "otel.kind");
    // A span without internal attributes passes unchanged.
    let public = vec![("otel.kind".to_string(), AttrValue::Text("INTERNAL".to_string()))];
    assert!(!has_private_attribute(&public));
    assert_eq!(filter_span_attributes(&public).len(), 1);
}

#[test]
fn json_renders_compactly_with_escapes() {
    let value = JsonValue::Object(vec![
        ("s".to_string(), JsonValue::Text("a\"b\\c\nd".to_string())),
        ("n".to_string(), JsonValue::Number("2.5".to_string())),
        ("f".to_string(), JsonValue::Bool(false)),
        ("z".to_string(), JsonValue::Null),
        (
            "arr".to_string(),
            JsonValue::Array(vec![JsonValue::Number("1".to_string()), JsonValue::Text("x".to_string())]),
        ),
    ]);
    assert_eq!(
        json_to_string(&value),
        r#"{"s":"a\"b\\c\nd","n":2.5,"f":false,"z":null,"arr":[1,"x"]}"#
    );
    let control = JsonValue::Text("\u{1}".to_string());
    assert_eq!(json_to_string(&control), r#""\u0001""#);
}

#[test]
fn json_paths_step_through_objects_and_arrays() {
    let body = JsonValue::Object(vec![(
        "data".to_string(),
        JsonValue::Array(vec![JsonValue::Object(vec![(
            "test".to_string(),
            JsonValue::Number("7".to_string()),
        )])]),
    )]);
    let path = vec![
        PathSegment::Key("data".to_string()),
        PathSegment::Index(0),
        PathSegment::Key("test".to_string()),
    ];
    match resolve(&body, &path) {
        Some(JsonValue::Number(n)) => assert_eq!(n, "7"),
        _ => panic!("path must resolve to the number"),
    }
    let missing = vec![PathSegment::Key("nope".to_string())];
    assert!(resolve(&body, &missing).is_none());
}

#[test]
fn endpoint_text_parses_with_a_scheme_retry() {
    match endpoint_from_string("default".to_string()) {
        Ok(AgentEndpoint::DefaultAgent) => {},
        _ => panic!("the word default names the stock agent"),
    }
    match parse_url_for_endpoint("127.0.0.1:4317".to_string()) {
        Ok(url) => assert_eq!(url.as_str(), "http://127.0.0.1:4317/"),
        Err(_) => panic!("bare host:port must parse after the retry"),
    }
    match parse_url_for_endpoint("collector:4317".to_string()) {
        Ok(url) => assert_eq!(url.as_str(), "http://collector:4317/"),
        Err(_) => panic!("host-as-scheme must parse after the retry"),
    }
    match parse_url_for_endpoint("https://collector.example:4317/v1".to_string()) {
        Ok(url) => assert_eq!(url.as_str(), "https://collector.example:4317/v1"),
        Err(_) => panic!("a full URL must parse as given"),
    }
    match parse_url_for_endpoint("http://".to_string()) {
        Err(EndpointError::Invalid) => {},
        _ => panic!("an empty host is rejected"),
    }
}

#[test]
fn batch_defaults_and_display() {
    assert_eq!(scheduled_delay_default(), 5000);
    assert_eq!(max_queue_size_default(), 2048);
    assert_eq!(max_export_batch_size_default(), 512);
    assert_eq!(max_export_timeout_default(), 30000);
    assert_eq!(max_concurrent_exports_default(), 1);
    let config = BatchProcessorConfig::default();
    assert_eq!(
        config.display_string(),
        "BatchConfig { scheduled_delay=5s, max_queue_size=2048, \
         max_export_batch_size=512, max_export_timeout=30s, max_concurrent_exports=1 }"
    );
}

#[test]
fn decimal_and_prefix_helpers() {
    assert_eq!(u64_to_dec(0), "0");
    assert_eq!(u64_to_dec(407), "407");
    assert!(str_starts_with("## failure", "## "));
    assert!(!str_starts_with("# ok", "## "));
}

#[test]
fn empty_inputs_render_empty_maps() {
    assert_eq!(filter_headers(&Vec::new(), &ForwardHeaders::Everything), "{}");
    assert_eq!(filter_variables_values(&Vec::new(), &ForwardValues::Everything), "{}");
    assert_eq!(json_to_string(&JsonValue::Object(Vec::new())), "{}");
    assert_eq!(json_to_string(&JsonValue::Array(Vec::new())), "[]");
    assert_eq!(trace_id_from_hex("0"), Some(0));
    assert_eq!(format_trace_id(0), "00000000000000000000000000000000");
}

#[test]
fn registry_with_one_instance_shuts_down_on_its_teardown() {
    let mut registry = TelemetryRegistry::new();
    registry.register_instance();
    assert!(registry.release_instance());
    assert_eq!(registry.shutdowns, 1);
}
