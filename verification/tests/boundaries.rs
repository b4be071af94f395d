//! What the four boundaries record: spans, context, metric observations.

use router_telemetry::attributes::{
    AttributesForwardConf, BodyForward, ErrorsForward, SectionForward,
};
use router_telemetry::forward::{ForwardHeaders, ForwardValues};
use router_telemetry::json::{JsonValue, PathSegment};
use router_telemetry::pipeline::{
    append_trace_id_header, execution_span, initial_stream_state, on_supergraph_failure,
    populate_context, router_request_span, router_response_record,
    store_subgraph_request_attributes, store_subgraph_response_attributes, subgraph_service_span,
    supergraph_service_span, update_otel_metrics, ApolloConf, BasicMetrics, ExposeTraceId,
    LoggingConf, MetricsConfModel, RouterRequest, SubgraphError, SubgraphRequest, SubgraphResponse,
    SupergraphRequest,
};
use router_telemetry::span::AttrValue;
use router_telemetry::usage::{Context, Sender, SenderKind};

fn pairs(items: &[(&str, &str)]) -> Vec<(String, String)> {
    items.iter().map(|(a, b)| (a.to_string(), b.to_string())).collect()
}

fn apollo_conf() -> ApolloConf {
    ApolloConf {
        client_name_header: "name_header".to_string(),
        client_version_header: "version_header".to_string(),
        send_headers: ForwardHeaders::Everything,
        send_variable_values: ForwardValues::Everything,
    }
}

fn attr_text(span: &router_telemetry::span::Span, name: &str) -> String {
    for (k, v) in span.attributes.iter() {
        if k == name {
            if let AttrValue::Text(s) = v {
                return s.clone();
            }
        }
    }
    panic!("attribute {} not found or not text", name);
}

#[test]
fn router_span_captures_client_identity() {
    let req = RouterRequest {
        method: "POST".to_string(),
        uri: "/graphql".to_string(),
        version: "HTTP/1.1".to_string(),
        headers: pairs(&[("name_header", "my-client"), ("version_header", "2.3")]),
    };
    let span = router_request_span(&req, &apollo_conf(), Some(0xabcd), true);
    assert_eq!(span.name, "router");
    assert_eq!(attr_text(&span, "http.method"), "POST");
    assert_eq!(attr_text(&span, "client.name"), "my-client");
    assert_eq!(attr_text(&span, "client.version"), "2.3");
    assert_eq!(
        attr_text(&span, "trace_id"),
        "0000000000000000000000000000abcd"
    );
    assert_eq!(
        attr_text(&span, "apollo_private.http.request_headers"),
        r#"{"name_header":["my-client"],"version_header":["2.3"]}"#
    );
}

#[test]
fn router_status_class_decides_the_status_code() {
    let req = RouterRequest {
        method: "POST".to_string(),
        uri: "/".to_string(),
        version: "HTTP/1.1".to_string(),
        headers: Vec::new(),
    };
    let expose = ExposeTraceId { enabled: false, header_name: None };
    let mut ok_span = router_request_span(&req, &apollo_conf(), None, false);
    router_response_record(&mut ok_span, 200, 1_000, &expose, &Vec::new());
    assert_eq!(attr_text(&ok_span, "otel.status_code"), "Ok");
    let mut err_span = router_request_span(&req, &apollo_conf(), None, false);
    router_response_record(&mut err_span, 400, 1_000, &expose, &Vec::new());
    assert_eq!(attr_text(&err_span, "otel.status_code"), "Error");
}

#[test]
fn exposed_trace_header_is_recorded_when_present() {
    let req = RouterRequest {
        method: "GET".to_string(),
        uri: "/".to_string(),
        version: "HTTP/1.1".to_string(),
        headers: Vec::new(),
    };
    let expose = ExposeTraceId { enabled: true, header_name: Some("apollo-trace-id".to_string()) };
    let response_headers = pairs(&[("apollo-trace-id", "0000000000000000000000000000abcd")]);
    let mut span = router_request_span(&req, &apollo_conf(), None, false);
    router_response_record(&mut span, 200, 5, &expose, &response_headers);
    assert_eq!(
        attr_text(&span, "apollo_private.http.response_headers"),
        r#"{"apollo-trace-id":["0000000000000000000000000000abcd"]}"#
    );
}

#[test]
fn supergraph_span_filters_variables() {
    let req = SupergraphRequest {
        headers: Vec::new(),
        query: Some("query { test }".to_string()),
        operation_name: None,
        variables: vec![
            ("a".to_string(), JsonValue::Number("1".to_string())),
            ("b".to_string(), JsonValue::Number("2".to_string())),
        ],
        body: JsonValue::Null,
    };
    let mut conf = apollo_conf();
    conf.send_variable_values = ForwardValues::Only(vec!["a".to_string()]);
    let span = supergraph_service_span(&req, 50, &conf, true);
    assert_eq!(span.name, "supergraph");
    assert_eq!(attr_text(&span, "graphql.document"), "query { test }");
    assert_eq!(
        attr_text(&span, "apollo_private.graphql.variables"),
        r#"{"a":"1","b":""}"#
    );
}

#[test]
fn trace_id_header_appends_under_the_default_name() {
    let expose = ExposeTraceId { enabled: true, header_name: None };
    let mut headers: Vec<(String, String)> = Vec::new();
    append_trace_id_header(&expose, &mut headers, Some(0xff));
    assert_eq!(
        headers,
        pairs(&[("apollo-trace-id", "000000000000000000000000000000ff")])
    );
    let off = ExposeTraceId { enabled: false, header_name: None };
    let mut untouched: Vec<(String, String)> = Vec::new();
    append_trace_id_header(&off, &mut untouched, Some(0xff));
    assert!(untouched.is_empty());
}

#[test]
fn populate_context_stores_identity_and_attributes() {
    let req = SupergraphRequest {
        headers: pairs(&[("name_header", "client-a"), ("test", "my_value_set")]),
        query: Some("query { test }".to_string()),
        operation_name: Some("Op".to_string()),
        variables: Vec::new(),
        body: JsonValue::Null,
    };
    let metrics_conf = MetricsConfModel {
        supergraph: Some(AttributesForwardConf {
            insert: None,
            request: Some(SectionForward {
                header: Some(vec![router_telemetry::attributes::HeaderForward {
                    named: "test".to_string(),
                    rename: Some("renamed_value".to_string()),
                    default: Some("default_value".to_string()),
                }]),
                body: None,
            }),
            response: None,
            errors: None,
            context: None,
        }),
        subgraph: None,
    };
    let logging = LoggingConf { display_headers: true, display_body: false };
    let mut ctx = Context::new();
    populate_context(&apollo_conf(), Some(&logging), Some(&metrics_conf), &req, &mut ctx);
    assert_eq!(ctx.client_name.as_deref(), Some("client-a"));
    assert_eq!(ctx.client_version.as_deref(), Some(""));
    assert!(ctx.logging_display_headers);
    assert!(!ctx.logging_display_body);
    assert_eq!(
        ctx.attributes,
        Some(pairs(&[("operation_name", "Op"), ("renamed_value", "my_value_set")]))
    );
}

#[test]
fn supergraph_completion_records_both_instruments() {
    let mut ctx = Context::new();
    ctx.attributes = Some(pairs(&[("myname", "label_value")]));
    let mut metrics = BasicMetrics::new();
    update_otel_metrics(&mut metrics, None, &ctx, 200, &Vec::new(), &JsonValue::Null, 1_500);
    assert_eq!(metrics.request_totals.len(), 1);
    assert_eq!(metrics.request_durations.len(), 1);
    assert_eq!(
        metrics.request_totals[0],
        pairs(&[("myname", "label_value"), ("status", "200")])
    );
    assert_eq!(metrics.request_durations[0].0, 1_500);
    // A non-success status adds the error tag.
    let mut failing = BasicMetrics::new();
    update_otel_metrics(&mut failing, None, &ctx, 400, &Vec::new(), &JsonValue::Null, 10);
    assert_eq!(
        failing.request_totals[0],
        pairs(&[("myname", "label_value"), ("status", "400"), ("error", "400")])
    );
}

#[test]
fn supergraph_failure_still_observes_metrics_and_usage() {
    let mut ctx = Context::new();
    ctx.usage_reporting = Some(router_telemetry::usage::UsageReporting {
        stats_report_key: "# Query\nquery{test}".to_string(),
        referenced_fields_by_type: Vec::new(),
    });
    let conf = AttributesForwardConf {
        insert: None,
        request: None,
        response: None,
        errors: Some(ErrorsForward { include_messages: true, extensions: None }),
        context: None,
    };
    let mut metrics = BasicMetrics::new();
    let mut sender = Sender { kind: SenderKind::Apollo, sent: Vec::new() };
    let err = SubgraphError {
        message: "an error occured".to_string(),
        extensions: JsonValue::Null,
    };
    on_supergraph_failure(&ctx, Some(&conf), &mut metrics, &mut sender, &err, 2_000, 3);
    assert_eq!(sender.sent.len(), 1);
    let (_, stats) = sender.sent[0].stats.as_ref().expect("full record");
    assert!(stats.stats_with_context.query_latency_stats.has_errors);
    assert_eq!(metrics.request_totals.len(), 1);
    assert_eq!(metrics.request_totals[0], pairs(&[("message", "an error occured")]));
}

#[test]
fn unsuccessful_status_seeds_the_error_flag() {
    assert!(initial_stream_state(500).has_errors);
    assert!(initial_stream_state(400).has_errors);
    assert!(!initial_stream_state(200).has_errors);
}

#[test]
fn execution_span_is_minimal() {
    let span = execution_span(false);
    assert_eq!(span.name, "execution");
    assert_eq!(span.attributes.len(), 1);
    assert_eq!(span.attributes[0].0, "otel.kind");
}

#[test]
fn subgraph_span_names_the_subgraph() {
    let req = SubgraphRequest {
        headers: Vec::new(),
        query: Some("query { test }".to_string()),
        operation_name: None,
        body: JsonValue::Null,
    };
    let span = subgraph_service_span("my_subgraph_name", &req, true);
    assert_eq!(span.name, "subgraph");
    assert_eq!(attr_text(&span, "apollo.subgraph.name"), "my_subgraph_name");
    assert_eq!(attr_text(&span, "graphql.document"), "query { test }");
}

fn subgraph_error_conf() -> AttributesForwardConf {
    AttributesForwardConf {
        insert: None,
        request: None,
        response: None,
        errors: Some(ErrorsForward {
            include_messages: true,
            extensions: Some(vec![BodyForward {
                path: vec![PathSegment::Key("code".to_string())],
                name: "subgraph_error_extended_code".to_string(),
                default: None,
            }]),
        }),
        context: None,
    }
}

#[test]
fn subgraph_completion_is_observed_once() {
    let mut ctx = Context::new();
    store_subgraph_request_attributes(None, &SubgraphRequest {
        headers: Vec::new(),
        query: None,
        operation_name: None,
        body: JsonValue::Null,
    }, &mut ctx);
    let mut metrics = BasicMetrics::new();
    let resp = SubgraphResponse { status: 200, headers: Vec::new(), body: JsonValue::Null };
    store_subgraph_response_attributes(
        &ctx,
        &mut metrics,
        &"my_subgraph_name".to_string(),
        None,
        &Ok(resp),
        750,
    );
    assert_eq!(metrics.request_totals.len(), 1);
    assert_eq!(metrics.request_durations.len(), 1);
    assert_eq!(
        metrics.request_totals[0],
        pairs(&[("subgraph", "my_subgraph_name"), ("status", "200")])
    );
    assert_eq!(metrics.request_durations[0].0, 750);
}

#[test]
fn subgraph_failure_emits_one_observation_with_error_attributes() {
    let ctx = Context::new();
    let conf = subgraph_error_conf();
    let mut metrics = BasicMetrics::new();
    let err = SubgraphError {
        message: "cannot contact the subgraph".to_string(),
        extensions: JsonValue::Object(vec![(
            "code".to_string(),
            JsonValue::Text("FETCH_ERROR".to_string()),
        )]),
    };
    store_subgraph_response_attributes(
        &ctx,
        &mut metrics,
        &"my_subgraph_name_error".to_string(),
        Some(&conf),
        &Err(err),
        900,
    );
    assert_eq!(metrics.request_totals.len(), 1);
    assert_eq!(
        metrics.request_totals[0],
        pairs(&[
            ("subgraph", "my_subgraph_name_error"),
            ("message", "cannot contact the subgraph"),
            ("subgraph_error_extended_code", "FETCH_ERROR"),
        ])
    );
    assert_eq!(metrics.request_durations.len(), 1);
}
