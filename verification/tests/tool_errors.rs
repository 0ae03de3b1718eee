use neurograph::errors::ToolCallError;
use serde_json::Value;

#[test]
fn tool_error_payload_contains_required_fields() {
    let payload = ToolCallError::UnknownNode {
        requested_id: "abc".to_string(),
        suggestion: "Use find_callers('bar') to search by name.".to_string(),
    }
    .payload();

    assert_eq!(payload["error"], Value::String("UNKNOWN_NODE".to_string()));
    assert!(payload["detail"].as_str().unwrap().contains("abc"));
    assert!(payload["suggestion"]
        .as_str()
        .unwrap()
        .contains("find_callers"));
}

#[test]
fn every_variant_has_its_code() {
    let errors = vec![
        ToolCallError::UnknownNode {
            requested_id: "x".to_string(),
            suggestion: "s".to_string(),
        },
        ToolCallError::NodeDeletedInPr {
            fqn: "pkg.f".to_string(),
            suggestion: "s".to_string(),
        },
        ToolCallError::QueryTimeout {
            timeout_ms: 250,
            suggestion: "s".to_string(),
        },
        ToolCallError::invalid_schema("bad".to_string()),
        ToolCallError::SubgraphTooLarge {
            node_count: 60,
            cap: 25,
            suggestion: "s".to_string(),
        },
    ];
    let codes: Vec<&str> = errors.iter().map(|e| e.code()).collect();
    assert_eq!(
        codes,
        vec![
            "UNKNOWN_NODE",
            "NODE_DELETED_IN_PR",
            "QUERY_TIMEOUT",
            "INVALID_SCHEMA",
            "SUBGRAPH_TOO_LARGE"
        ]
    );
}

#[test]
fn details_name_the_subject_and_numbers() {
    let timeout = ToolCallError::QueryTimeout {
        timeout_ms: 1500,
        suggestion: "retry".to_string(),
    };
    assert_eq!(
        timeout.detail(),
        "The graph query exceeded the timeout threshold of 1500 ms."
    );
    let too_large = ToolCallError::SubgraphTooLarge {
        node_count: 51,
        cap: 10,
        suggestion: "narrow".to_string(),
    };
    assert_eq!(
        too_large.detail(),
        "The requested subgraph would return 51 nodes which exceeds the cap of 10."
    );
    let deleted = ToolCallError::NodeDeletedInPr {
        fqn: "pkg.gone".to_string(),
        suggestion: "flag".to_string(),
    };
    assert_eq!(
        deleted.detail(),
        "The node `pkg.gone` exists in the baseline graph but was removed in the PR overlay."
    );
    let zero = ToolCallError::QueryTimeout {
        timeout_ms: 0,
        suggestion: "retry".to_string(),
    };
    assert_eq!(
        zero.detail(),
        "The graph query exceeded the timeout threshold of 0 ms."
    );
}

#[test]
fn to_json_is_compact_with_sorted_keys() {
    let error = ToolCallError::UnknownNode {
        requested_id: "abc".to_string(),
        suggestion: "Use find_callers('bar') to search by name.".to_string(),
    };
    let text = error.to_json();
    assert_eq!(
        text,
        "{\"detail\":\"The requested node `abc` does not exist in the current graph.\",\"error\":\"UNKNOWN_NODE\",\"suggestion\":\"Use find_callers('bar') to search by name.\"}"
    );
    assert_eq!(text, error.payload().to_string());

    let schema = ToolCallError::invalid_schema("max \"nodes\"\n".to_string());
    let text = schema.to_json();
    assert_eq!(
        text,
        "{\"detail\":\"max \\\"nodes\\\"\\n\",\"error\":\"INVALID_SCHEMA\"}"
    );
    assert_eq!(text, schema.payload().to_string());
}

#[test]
fn payload_members_follow_the_variant() {
    let schema = ToolCallError::invalid_schema("bad input".to_string());
    let payload = schema.payload();
    assert_eq!(payload["detail"], Value::String("bad input".to_string()));
    assert_eq!(payload["error"], Value::String("INVALID_SCHEMA".to_string()));
    assert!(payload.get("suggestion").is_none());
    assert_eq!(payload.as_object().unwrap().len(), 2);
    let timeout = ToolCallError::QueryTimeout {
        timeout_ms: 5,
        suggestion: "retry".to_string(),
    }
    .payload();
    assert_eq!(timeout.as_object().unwrap().len(), 3);
    assert_eq!(timeout["suggestion"], Value::String("retry".to_string()));

    let entries = schema.payload_entries();
    assert_eq!(
        entries,
        vec![
            ("detail".to_string(), "bad input".to_string()),
            ("error".to_string(), "INVALID_SCHEMA".to_string()),
        ]
    );
}
