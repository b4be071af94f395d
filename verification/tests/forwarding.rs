//! Header, variable and policy-merge behaviour.

use router_telemetry::attributes::{
    AttributesForwardConf, BodyForward, ContextForward, ErrorsForward, HeaderForward,
    SectionForward, StaticAttr, SubgraphAttributesConf,
};
use router_telemetry::forward::{filter_headers, filter_variables_values, ForwardHeaders, ForwardValues};
use router_telemetry::json::{JsonValue, PathSegment};

fn pairs(items: &[(&str, &str)]) -> Vec<(String, String)> {
    items.iter().map(|(a, b)| (a.to_string(), b.to_string())).collect()
}

#[test]
fn it_test_send_headers_to_studio() {
    let fw_headers = ForwardHeaders::Only(vec!["test".to_string(), "apollo-x-name".to_string()]);
    let headers = pairs(&[
        ("authorization", "xxx"),
        ("test", "content"),
        ("referer", "test"),
        ("foo", "bar"),
        ("apollo-x-name", "polaris"),
    ]);
    let filtered_headers = filter_headers(&headers, &fw_headers);
    assert_eq!(
        filtered_headers.as_str(),
        r#"{"apollo-x-name":["polaris"],"test":["content"]}"#
    );
    let filtered_headers = filter_headers(&headers, &ForwardHeaders::Nothing);
    assert_eq!(filtered_headers.as_str(), "{}");
}

#[test]
fn sensitive_headers_never_forwarded() {
    let headers = pairs(&[
        ("authorization", "xxx"),
        ("cookie", "a=b"),
        ("set-cookie", "c=d"),
        ("x-ok", "yes"),
    ]);
    // Even an explicit allow-list cannot leak the deny-listed headers.
    let policy = ForwardHeaders::Only(vec![
        "authorization".to_string(),
        "cookie".to_string(),
        "set-cookie".to_string(),
        "x-ok".to_string(),
    ]);
    assert_eq!(filter_headers(&headers, &policy), r#"{"x-ok":["yes"]}"#);
    assert_eq!(
        filter_headers(&headers, &ForwardHeaders::Everything),
        r#"{"x-ok":["yes"]}"#
    );
}

#[test]
fn repeated_headers_group_their_values() {
    let headers = pairs(&[("accept", "text/html"), ("accept", "application/json")]);
    assert_eq!(
        filter_headers(&headers, &ForwardHeaders::Everything),
        r#"{"accept":["text/html","application/json"]}"#
    );
}

#[test]
fn except_policy_drops_only_the_named_headers() {
    let headers = pairs(&[("a", "1"), ("b", "2")]);
    let policy = ForwardHeaders::Except(vec!["a".to_string()]);
    assert_eq!(filter_headers(&headers, &policy), r#"{"b":["2"]}"#);
}

#[test]
fn variable_filtering_keeps_every_key() {
    let variables = vec![
        ("a".to_string(), JsonValue::Number("1".to_string())),
        ("b".to_string(), JsonValue::Number("2".to_string())),
    ];
    let policy = ForwardValues::Only(vec!["a".to_string()]);
    let rendered = filter_variables_values(&variables, &policy);
    assert_eq!(rendered, r#"{"a":"1","b":""}"#);
    let rendered_none = filter_variables_values(&variables, &ForwardValues::Nothing);
    assert_eq!(rendered_none, r#"{"a":"","b":""}"#);
    let rendered_all = filter_variables_values(&variables, &ForwardValues::Everything);
    assert_eq!(rendered_all, r#"{"a":"1","b":"2"}"#);
}

fn subgraph_conf() -> SubgraphAttributesConf {
    SubgraphAttributesConf {
        all: Some(AttributesForwardConf {
            insert: Some(vec![StaticAttr { name: "myname".to_string(), value: "label_value".to_string() }]),
            request: Some(SectionForward {
                header: Some(vec![HeaderForward {
                    named: "test".to_string(),
                    rename: Some("renamed_value".to_string()),
                    default: Some("default_value".to_string()),
                }]),
                body: None,
            }),
            response: None,
            errors: Some(ErrorsForward { include_messages: true, extensions: None }),
            context: None,
        }),
        subgraphs: vec![(
            "my_subgraph_name".to_string(),
            AttributesForwardConf {
                insert: Some(vec![StaticAttr { name: "extra".to_string(), value: "v".to_string() }]),
                request: Some(SectionForward {
                    header: None,
                    body: Some(vec![BodyForward {
                        path: vec![PathSegment::Key("query".to_string())],
                        name: "query_from_request".to_string(),
                        default: None,
                    }]),
                }),
                response: None,
                errors: None,
                context: Some(vec![ContextForward {
                    named: "my_key".to_string(),
                    rename: None,
                    default: None,
                }]),
            },
        )],
    }
}

#[test]
fn policy_resolution_is_deterministic() {
    let conf = subgraph_conf();
    let once = conf.resolve_for_subgraph("my_subgraph_name");
    let twice = conf.resolve_for_subgraph("my_subgraph_name");

    // Same resolved policy: it extracts the same attributes from the same input.
    let headers = pairs(&[("test", "my_value_set")]);
    let body = JsonValue::Object(vec![(
        "query".to_string(),
        JsonValue::Text("query { test }".to_string()),
    )]);
    let a = once.get_attributes_from_request(&headers, &body);
    let b = twice.get_attributes_from_request(&headers, &body);
    assert_eq!(a, b);
    assert_eq!(
        a,
        pairs(&[
            ("myname", "label_value"),
            ("extra", "v"),
            ("renamed_value", "my_value_set"),
            ("query_from_request", "query { test }"),
        ])
    );
}

#[test]
fn extended_lists_keep_global_entries_first() {
    let conf = subgraph_conf();
    let resolved = conf.resolve_for_subgraph("my_subgraph_name");
    let insert = resolved.insert.expect("extended inserts");
    assert_eq!(insert.len(), 2);
    assert_eq!(insert[0].name, "myname");
    assert_eq!(insert[1].name, "extra");
    // Sections merge field-wise: the override's body wins, the global header
    // survives where the override leaves it unset.
    let request = resolved.request.expect("merged request section");
    assert!(request.header.is_some());
    assert!(request.body.is_some());
    // An unknown subgraph resolves to the global policy alone.
    let plain = conf.resolve_for_subgraph("other");
    let plain_insert = plain.insert.expect("global inserts");
    assert_eq!(plain_insert.len(), 1);
    assert_eq!(plain_insert[0].name, "myname");
    assert!(plain.context.is_none());
}

#[test]
fn absent_header_uses_default_or_is_omitted() {
    let conf = AttributesForwardConf {
        insert: None,
        request: Some(SectionForward {
            header: Some(vec![
                HeaderForward {
                    named: "present".to_string(),
                    rename: None,
                    default: None,
                },
                HeaderForward {
                    named: "absent-with-default".to_string(),
                    rename: None,
                    default: Some("fallback".to_string()),
                },
                HeaderForward {
                    named: "absent".to_string(),
                    rename: None,
                    default: None,
                },
            ]),
            body: None,
        }),
        response: None,
        errors: None,
        context: None,
    };
    let headers = pairs(&[("present", "here")]);
    let attrs = conf.get_attributes_from_request(&headers, &JsonValue::Null);
    assert_eq!(
        attrs,
        pairs(&[("present", "here"), ("absent-with-default", "fallback")])
    );
}

#[test]
fn body_paths_resolve_and_fall_back() {
    let conf = AttributesForwardConf {
        insert: None,
        request: None,
        response: Some(SectionForward {
            header: None,
            body: Some(vec![
                BodyForward {
                    path: vec![
                        PathSegment::Key("data".to_string()),
                        PathSegment::Key("test".to_string()),
                    ],
                    name: "my_new_name".to_string(),
                    default: Some("default_value".to_string()),
                },
                BodyForward {
                    path: vec![
                        PathSegment::Key("errors".to_string()),
                        PathSegment::Index(0),
                        PathSegment::Key("extensions".to_string()),
                        PathSegment::Key("status".to_string()),
                    ],
                    name: "error".to_string(),
                    default: None,
                },
            ]),
        }),
        errors: None,
        context: None,
    };
    let body = JsonValue::Object(vec![
        (
            "data".to_string(),
            JsonValue::Object(vec![("other".to_string(), JsonValue::Bool(true))]),
        ),
        (
            "errors".to_string(),
            JsonValue::Array(vec![JsonValue::Object(vec![(
                "extensions".to_string(),
                JsonValue::Object(vec![(
                    "status".to_string(),
                    JsonValue::Text("INTERNAL_SERVER_ERROR".to_string()),
                )]),
            )])]),
        ),
    ]);
    let attrs = conf.get_attributes_from_response(&pairs(&[]), &body);
    assert_eq!(
        attrs,
        pairs(&[("my_new_name", "default_value"), ("error", "INTERNAL_SERVER_ERROR")])
    );
}

#[test]
fn error_forwards_read_message_and_extensions() {
    let conf = AttributesForwardConf {
        insert: None,
        request: None,
        response: None,
        errors: Some(ErrorsForward {
            include_messages: true,
            extensions: Some(vec![
                BodyForward {
                    path: vec![PathSegment::Key("code".to_string())],
                    name: "subgraph_error_extended_code".to_string(),
                    default: None,
                },
                BodyForward {
                    path: vec![PathSegment::Key("reason".to_string())],
                    name: "message".to_string(),
                    default: None,
                },
            ]),
        }),
        context: None,
    };
    let message = "cannot contact the subgraph".to_string();
    let extensions = JsonValue::Object(vec![
        ("code".to_string(), JsonValue::Text("FETCH_ERROR".to_string())),
        (
            "reason".to_string(),
            JsonValue::Text("cannot contact the subgraph".to_string()),
        ),
    ]);
    let attrs = conf.get_attributes_from_error(&message, &extensions);
    assert_eq!(
        attrs,
        pairs(&[
            ("message", "cannot contact the subgraph"),
            ("subgraph_error_extended_code", "FETCH_ERROR"),
            ("message", "cannot contact the subgraph"),
        ])
    );
}
