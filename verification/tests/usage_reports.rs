//! Usage-record emission over single and streamed responses.

use router_telemetry::json::JsonValue;
use router_telemetry::span::{AttrValue, Span};
use router_telemetry::usage::{
    apollo_handler, operation_count, process_increment, process_response_stream,
    update_apollo_metrics, ApolloFtv1Handler, Context, ReferencedFieldsForType, ResponseIncrement,
    Sender, SenderKind, StreamState, UsageReporting,
};

fn context_with_usage(signature: &str) -> Context {
    let mut ctx = Context::new();
    ctx.usage_reporting = Some(UsageReporting {
        stats_report_key: signature.to_string(),
        referenced_fields_by_type: vec![(
            "Query".to_string(),
            ReferencedFieldsForType { field_names: vec!["test".to_string()], is_interface: false },
        )],
    });
    ctx.client_name = Some("client".to_string());
    ctx.client_version = Some("1.0".to_string());
    ctx.persisted_query_hit = Some(true);
    ctx
}

fn apollo_sender() -> Sender {
    Sender { kind: SenderKind::Apollo, sent: Vec::new() }
}

#[test]
fn operation_count_rule() {
    assert_eq!(operation_count("## GraphQLParseFailure\n"), 0);
    assert_eq!(operation_count("# Query\nquery{test}"), 1);
    assert_eq!(operation_count("anything else"), 1);
}

#[test]
fn single_response_emits_one_record() {
    let ctx = context_with_usage("# Query\nquery{test}");
    let mut sender = apollo_sender();
    let mut state = StreamState { has_errors: false };
    let increments = vec![ResponseIncrement { has_errors: false, has_next: false }];
    process_response_stream(&mut state, &increments, &ctx, &mut sender, 1_000, 42);
    assert_eq!(sender.sent.len(), 1);
    let report = &sender.sent[0];
    assert_eq!(report.operation_count, 1);
    assert_eq!(report.request_id, 42);
    let (signature, stats) = report.stats.as_ref().expect("full record");
    assert_eq!(signature, "# Query\nquery{test}");
    assert_eq!(stats.stats_with_context.context.client_name, "client");
    assert_eq!(stats.stats_with_context.context.client_version, "1.0");
    assert_eq!(stats.stats_with_context.query_latency_stats.latency_ns, 1_000);
    assert!(!stats.stats_with_context.query_latency_stats.has_errors);
    assert!(stats.stats_with_context.query_latency_stats.persisted_query_hit);
    assert_eq!(stats.referenced_fields_by_type.len(), 1);
    assert_eq!(stats.referenced_fields_by_type[0].0, "Query");
    assert_eq!(stats.referenced_fields_by_type[0].1.field_names, vec!["test".to_string()]);
}

#[test]
fn streamed_response_emits_one_record() {
    let ctx = context_with_usage("# Query\nquery{test}");
    let mut sender = apollo_sender();
    let mut state = StreamState { has_errors: false };
    let increments = vec![
        ResponseIncrement { has_errors: false, has_next: true },
        ResponseIncrement { has_errors: false, has_next: true },
        ResponseIncrement { has_errors: false, has_next: false },
    ];
    process_response_stream(&mut state, &increments, &ctx, &mut sender, 2_000, 7);
    assert_eq!(sender.sent.len(), 1);
}

#[test]
fn noop_sender_receives_nothing() {
    let ctx = context_with_usage("# Query\nquery{test}");
    let mut sender = Sender { kind: SenderKind::Noop, sent: Vec::new() };
    let mut state = StreamState { has_errors: false };
    let increments = vec![ResponseIncrement { has_errors: false, has_next: false }];
    process_response_stream(&mut state, &increments, &ctx, &mut sender, 1_000, 42);
    assert_eq!(sender.sent.len(), 0);
}

#[test]
fn error_flag_propagates_across_increments() {
    let ctx = context_with_usage("# Query\nquery{test}");
    let mut sender = apollo_sender();
    let mut state = StreamState { has_errors: false };
    let increments = vec![
        ResponseIncrement { has_errors: false, has_next: true },
        ResponseIncrement { has_errors: true, has_next: true },
        ResponseIncrement { has_errors: false, has_next: false },
    ];
    for inc in &increments {
        process_increment(&mut state, inc, &ctx, &mut sender, 3_000, 9);
    }
    assert_eq!(sender.sent.len(), 1);
    let (_, stats) = sender.sent[0].stats.as_ref().expect("full record");
    assert!(stats.stats_with_context.query_latency_stats.has_errors);
}

#[test]
fn missing_usage_metadata_still_counts_one_operation() {
    let ctx = Context::new();
    let mut sender = apollo_sender();
    update_apollo_metrics(&ctx, &mut sender, false, 500, 1);
    assert_eq!(sender.sent.len(), 1);
    assert_eq!(sender.sent[0].operation_count, 1);
    assert!(sender.sent[0].stats.is_none());
    assert_eq!(sender.sent[0].request_id, 0);
}

#[test]
fn planning_failure_signature_counts_zero_operations() {
    let ctx = context_with_usage("## GraphQLParseFailure\n");
    let mut sender = apollo_sender();
    update_apollo_metrics(&ctx, &mut sender, false, 500, 1);
    assert_eq!(sender.sent.len(), 1);
    assert_eq!(sender.sent[0].operation_count, 0);
}

#[test]
fn excluded_request_keeps_only_the_count() {
    let mut ctx = context_with_usage("# Query\nquery{test}");
    ctx.studio_exclude = Some(true);
    let mut sender = apollo_sender();
    update_apollo_metrics(&ctx, &mut sender, true, 500, 99);
    assert_eq!(sender.sent.len(), 1);
    assert_eq!(sender.sent[0].operation_count, 1);
    assert!(sender.sent[0].stats.is_none());
    assert_eq!(sender.sent[0].request_id, 0);
}

#[test]
fn sampling_edges_are_exact() {
    assert_eq!(apollo_handler(0), ApolloFtv1Handler::Disabled);
    assert_eq!(apollo_handler(100), ApolloFtv1Handler::Enabled);
}

#[test]
fn ftv1_marker_needs_enablement_and_sampling() {
    let mut headers: Vec<(String, String)> = Vec::new();
    ApolloFtv1Handler::Enabled.request_ftv1(&mut headers, true);
    assert_eq!(
        headers,
        vec![("apollo-federation-include-trace".to_string(), "ftv1".to_string())]
    );
    let mut unsampled: Vec<(String, String)> = Vec::new();
    ApolloFtv1Handler::Enabled.request_ftv1(&mut unsampled, false);
    assert!(unsampled.is_empty());
    let mut disabled: Vec<(String, String)> = Vec::new();
    ApolloFtv1Handler::Disabled.request_ftv1(&mut disabled, true);
    assert!(disabled.is_empty());
}

#[test]
fn ftv1_fragment_is_stashed_on_the_span() {
    let mut span = Span::new("subgraph".to_string(), true);
    let extensions = JsonValue::Object(vec![(
        "ftv1".to_string(),
        JsonValue::Text("abc123".to_string()),
    )]);
    ApolloFtv1Handler::Enabled.store_ftv1(&extensions, &mut span);
    assert_eq!(span.attributes.len(), 1);
    assert_eq!(span.attributes[0].0, "apollo_private.ftv1");
    match &span.attributes[0].1 {
        AttrValue::Text(s) => assert_eq!(s, "abc123"),
        _ => panic!("fragment must be text"),
    }
    let mut untouched = Span::new("subgraph".to_string(), true);
    ApolloFtv1Handler::Disabled.store_ftv1(&extensions, &mut untouched);
    assert!(untouched.attributes.is_empty());
}
