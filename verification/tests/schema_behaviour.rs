use neurograph::errors::SchemaError;
use neurograph::schema::{
    ConfidenceConfig, ConfidenceRange, Edge, EdgeKind, GraphSnapshot, GraphVersion, Node, NodeId,
    NodeKind, NodeStatus, PartialParam, ResolutionMethod, Signature, SourceLocation, TypedParam,
};

#[test]
fn node_id_round_trip_and_validation_work() {
    let node_id = NodeId::new("python", "pkg.parse_config");
    let parsed = NodeId::from_hex(node_id.as_str().to_string()).unwrap();
    assert_eq!(node_id, parsed);
    assert!(NodeId::from_hex("not-a-hash".to_string()).is_err());
}

#[test]
fn graph_version_starts_at_one_and_increments() {
    assert!(GraphVersion::new(0).is_err());
    assert_eq!(GraphVersion::initial().value(), 1);
    assert_eq!(GraphVersion::initial().increment().value(), 2);
}

#[test]
fn signature_helpers_reflect_variant_shape() {
    let typed = Signature::Typed {
        params: vec![TypedParam {
            name: "value".to_string(),
            type_annotation: "str".to_string(),
            has_default: false,
        }],
        return_type: "str".to_string(),
        is_async: false,
        is_generic: false,
    };
    let untyped = Signature::Untyped { arity: None };

    assert!(typed.is_structurally_comparable());
    assert_eq!(typed.arity(), Some(1));
    assert_eq!(typed.param_names(), Some(vec!["value"]));
    assert!(!untyped.is_structurally_comparable());
    assert_eq!(untyped.arity(), None);
}

#[test]
fn edge_constructor_enforces_fixed_confidence_rules() {
    let source = NodeId::new("python", "pkg.a");
    let target = NodeId::new("python", "pkg.b");
    assert!(Edge::new(
        source.clone(),
        target.clone(),
        EdgeKind::Calls,
        1_100_000,
        ResolutionMethod::Heuristic,
        GraphVersion::initial(),
    )
    .is_err());
    assert!(Edge::new(
        source,
        target,
        EdgeKind::Calls,
        900_000,
        ResolutionMethod::Static,
        GraphVersion::initial(),
    )
    .is_err());
}

#[test]
fn confidence_config_warning_and_snapshot_staleness_are_exposed() {
    let config = ConfidenceConfig::default();
    assert!(config.startup_warning().is_some());

    let snapshot = GraphSnapshot {
        baseline_version: GraphVersion::initial(),
        current_baseline_version: GraphVersion::initial().increment(),
        pr_identifier: "42".to_string(),
    };
    assert!(snapshot.is_stale());
}

#[test]
fn node_id_is_hex_sha256_of_language_and_name() {
    let id = NodeId::new("python", "pkg.parse_config");
    assert_eq!(
        id.as_str(),
        "d0b883854b0feeeaa5f5d384d9c2b112b4693c151f2811ef070400854c3dab82"
    );
    assert_eq!(id.as_str().len(), 64);
}

#[test]
fn from_hex_lowercases_and_reports_bad_input() {
    let upper = "D0B883854B0FEEEAA5F5D384D9C2B112B4693C151F2811EF070400854C3DAB82".to_string();
    let parsed = NodeId::from_hex(upper).unwrap();
    assert_eq!(parsed, NodeId::new("python", "pkg.parse_config"));

    assert_eq!(
        NodeId::from_hex("not-a-hash".to_string()),
        Err(SchemaError::InvalidNodeId("not-a-hash".to_string()))
    );
    let bad_digit = "g".repeat(64);
    assert_eq!(
        NodeId::from_hex(bad_digit.clone()),
        Err(SchemaError::InvalidNodeId(bad_digit))
    );
    let too_long = "a".repeat(65);
    assert!(NodeId::from_hex(too_long).is_err());
}

#[test]
fn graph_version_errors_and_defaults() {
    assert_eq!(GraphVersion::new(0), Err(SchemaError::InvalidGraphVersion));
    assert_eq!(GraphVersion::new(7).unwrap().value(), 7);
    assert_eq!(GraphVersion::default().value(), 1);
}

#[test]
fn edge_constructor_accepts_valid_edges_and_names_each_error() {
    let source = NodeId::new("python", "pkg.a");
    let target = NodeId::new("python", "pkg.b");
    assert_eq!(
        Edge::new(
            source.clone(),
            target.clone(),
            EdgeKind::Calls,
            -1,
            ResolutionMethod::Heuristic,
            GraphVersion::initial(),
        ),
        Err(SchemaError::InvalidConfidence(-1))
    );
    assert_eq!(
        Edge::new(
            source.clone(),
            target.clone(),
            EdgeKind::Calls,
            900_000,
            ResolutionMethod::Runtime,
            GraphVersion::initial(),
        ),
        Err(SchemaError::ConfidenceMismatch {
            resolution: ResolutionMethod::Runtime,
            confidence: 900_000,
        })
    );
    let edge = Edge::new(
        source.clone(),
        target.clone(),
        EdgeKind::Imports,
        1_000_000,
        ResolutionMethod::Static,
        GraphVersion::initial(),
    )
    .unwrap();
    assert_eq!(edge.confidence(), 1_000_000);
    assert_eq!(edge.source, source);
    assert_eq!(edge.target, target);
    assert!(!edge.requires_escalation(700_000));

    let heuristic = Edge::new(
        NodeId::new("python", "pkg.a"),
        NodeId::new("python", "pkg.b"),
        EdgeKind::Calls,
        400_000,
        ResolutionMethod::Heuristic,
        GraphVersion::initial(),
    )
    .unwrap();
    assert!(heuristic.requires_escalation(700_000));
    assert!(!heuristic.requires_escalation(400_000));
}

#[test]
fn confidence_range_rejects_inverted_bounds_and_includes_its_ends() {
    assert_eq!(
        ConfidenceRange::new(600_000, 300_000),
        Err(SchemaError::InvalidConfidenceRange {
            min: 600_000,
            max: 300_000,
        })
    );
    let range = ConfidenceRange::new(300_000, 600_000).unwrap();
    assert!(range.contains(300_000));
    assert!(range.contains(600_000));
    assert!(!range.contains(299_999));
    assert!(!range.contains(600_001));
}

#[test]
fn default_confidence_config_uses_feasibility_ranges() {
    let config = ConfidenceConfig::default();
    assert_eq!(config.type_inferred_range.min, 700_000);
    assert_eq!(config.type_inferred_range.max, 900_000);
    assert_eq!(config.heuristic_range.min, 300_000);
    assert_eq!(config.heuristic_range.max, 600_000);
    assert_eq!(
        config.startup_warning().unwrap(),
        "ConfidenceConfig is still using default feasibility-spike ranges. Run calibration before relying on escalation routing."
    );
    let calibrated = ConfidenceConfig {
        is_calibrated: true,
        ..ConfidenceConfig::default()
    };
    assert_eq!(calibrated.startup_warning(), None);
}

#[test]
fn fresh_snapshot_is_not_stale() {
    let snapshot = GraphSnapshot {
        baseline_version: GraphVersion::initial().increment(),
        current_baseline_version: GraphVersion::initial().increment(),
        pr_identifier: "7".to_string(),
    };
    assert!(!snapshot.is_stale());
}

fn sample_node(id: NodeId, fqn: &str) -> Node {
    Node {
        id,
        language: "python".to_string(),
        name: "f".to_string(),
        fqn: fqn.to_string(),
        kind: NodeKind::Function,
        file_path: "pkg/f.py".to_string(),
        location: SourceLocation {
            start_line: 1,
            end_line: 2,
        },
        status: NodeStatus::Active,
        signature: Signature::PartiallyTyped {
            params: vec![PartialParam {
                name: "value".to_string(),
                type_annotation: None,
                has_default: false,
            }],
            return_type: None,
            is_async: false,
        },
        body_hash: "b".repeat(64),
        introduced_at_version: GraphVersion::initial(),
    }
}

#[test]
fn node_validation_checks_the_id() {
    let good = sample_node(NodeId::new("python", "pkg.f"), "pkg.f");
    assert_eq!(good.clone().validate(), Ok(good));

    let wrong_id = NodeId::new("python", "pkg.g");
    let bad = sample_node(wrong_id.clone(), "pkg.f");
    assert_eq!(
        bad.validate(),
        Err(SchemaError::NodeIdMismatch {
            provided: wrong_id,
            expected: NodeId::new("python", "pkg.f"),
        })
    );
}

#[test]
fn partially_typed_and_untyped_signatures_report_arity() {
    let partial = Signature::PartiallyTyped {
        params: vec![
            PartialParam {
                name: "a".to_string(),
                type_annotation: Some("int".to_string()),
                has_default: false,
            },
            PartialParam {
                name: "b".to_string(),
                type_annotation: None,
                has_default: true,
            },
        ],
        return_type: None,
        is_async: true,
    };
    assert!(partial.is_structurally_comparable());
    assert_eq!(partial.arity(), Some(2));
    assert_eq!(partial.param_names(), Some(vec!["a", "b"]));

    let untyped = Signature::Untyped { arity: Some(3) };
    assert_eq!(untyped.arity(), Some(3));
    assert_eq!(untyped.param_names(), None);
    assert!(!NodeStatus::Active.is_deprecated());
}
