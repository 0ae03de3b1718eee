use neurograph::errors::SchemaError;
use neurograph::rename::{RenameCandidate, RenameEvidence, AUTO_ACCEPT_THRESHOLD};
use neurograph::schema::{
    ConfidenceConfig, DeprecatedMetadata, DeprecationReason, Edge, EdgeKind, GraphVersion, Node,
    NodeId, NodeKind, NodeStatus, PartialParam, ResolutionMethod, Signature, SourceLocation,
    TypedParam,
};
use neurograph::validator::SchemaValidator;

fn target_node(status: NodeStatus) -> Node {
    Node {
        id: NodeId::new("python", "pkg.target"),
        language: "python".to_string(),
        name: "target".to_string(),
        fqn: "pkg.target".to_string(),
        kind: NodeKind::Function,
        file_path: "pkg/target.py".to_string(),
        location: SourceLocation {
            start_line: 1,
            end_line: 2,
        },
        status,
        signature: Signature::PartiallyTyped {
            params: vec![PartialParam {
                name: "value".to_string(),
                type_annotation: None,
                has_default: false,
            }],
            return_type: None,
            is_async: false,
        },
        body_hash: "a".repeat(64),
        introduced_at_version: GraphVersion::initial(),
    }
}

#[test]
fn validator_rejects_uncalibrated_range_violations_and_deprecated_targets() {
    let validator = SchemaValidator::new(ConfidenceConfig::default());
    let edge = Edge::new(
        NodeId::new("python", "pkg.source"),
        NodeId::new("python", "pkg.target"),
        EdgeKind::Calls,
        950_000,
        ResolutionMethod::TypeInferred,
        GraphVersion::initial(),
    )
    .unwrap();

    assert!(matches!(
        validator.validate_edge_write(&edge, &target_node(NodeStatus::Active)),
        Err(SchemaError::ConfidenceOutOfCalibratedRange { .. })
    ));
    assert!(matches!(
        validator.validate_edge_write(
            &Edge::new(
                NodeId::new("python", "pkg.source"),
                NodeId::new("python", "pkg.target"),
                EdgeKind::Calls,
                400_000,
                ResolutionMethod::Heuristic,
                GraphVersion::initial(),
            )
            .unwrap(),
            &target_node(NodeStatus::Deprecated(DeprecatedMetadata {
                expires_in_syncs: 1,
                successor_id: None,
                reason: DeprecationReason::Unresolved,
            })),
        ),
        Err(SchemaError::EdgeTargetsDeprecatedNode { .. })
    ));
}

#[test]
fn validator_reports_the_range_it_applied() {
    let validator = SchemaValidator::new(ConfidenceConfig::default());
    let edge = Edge::new(
        NodeId::new("python", "pkg.source"),
        NodeId::new("python", "pkg.target"),
        EdgeKind::Calls,
        200_000,
        ResolutionMethod::Heuristic,
        GraphVersion::initial(),
    )
    .unwrap();
    assert_eq!(
        validator.validate_edge_write(&edge, &target_node(NodeStatus::Active)),
        Err(SchemaError::ConfidenceOutOfCalibratedRange {
            resolution: ResolutionMethod::Heuristic,
            confidence: 200_000,
            min: 300_000,
            max: 600_000,
        })
    );
    let exact = Edge::new(
        NodeId::new("python", "pkg.source"),
        NodeId::new("python", "pkg.target"),
        EdgeKind::Calls,
        1_000_000,
        ResolutionMethod::Static,
        GraphVersion::initial(),
    )
    .unwrap();
    assert_eq!(
        validator.validate_edge_write(&exact, &target_node(NodeStatus::Active)),
        Ok(())
    );
    assert_eq!(
        validator.validate_edge_write(
            &exact,
            &target_node(NodeStatus::Deprecated(DeprecatedMetadata {
                expires_in_syncs: 2,
                successor_id: None,
                reason: DeprecationReason::Unresolved,
            })),
        ),
        Err(SchemaError::EdgeTargetsDeprecatedNode {
            target: NodeId::new("python", "pkg.target"),
        })
    );
}

#[test]
fn validator_configuration_can_be_replaced() {
    let mut validator = SchemaValidator::new(ConfidenceConfig::default());
    assert!(!validator.confidence_config().is_calibrated);
    let calibrated = ConfidenceConfig {
        is_calibrated: true,
        calibration_sample_size: 500,
        calibrated_at: Some("2024-01-01".to_string()),
        ..ConfidenceConfig::default()
    };
    validator.set_confidence_config(calibrated.clone());
    assert_eq!(validator.confidence_config(), &calibrated);
}

fn rename_node(fqn: &str, file_path: &str, body_hash: &str) -> Node {
    Node {
        id: NodeId::new("python", fqn),
        language: "python".to_string(),
        name: fqn.rsplit('.').next().unwrap().to_string(),
        fqn: fqn.to_string(),
        kind: NodeKind::Function,
        file_path: file_path.to_string(),
        location: SourceLocation {
            start_line: 1,
            end_line: 3,
        },
        status: NodeStatus::Active,
        signature: Signature::PartiallyTyped {
            params: vec![PartialParam {
                name: "value".to_string(),
                type_annotation: None,
                has_default: false,
            }],
            return_type: None,
            is_async: false,
        },
        body_hash: body_hash.to_string(),
        introduced_at_version: GraphVersion::initial(),
    }
}

#[test]
fn rename_confidence_uses_weighted_evidence() {
    let deprecated = rename_node("pkg.old", "pkg/old.py", "same");
    let candidate = rename_node("pkg.new", "other/new.py", "same");
    let rename = RenameCandidate::from_nodes(&deprecated, &candidate);
    assert_eq!(rename.confidence, 950_000);
    assert!(rename.auto_accept());
}

#[test]
fn rename_evidence_weights_add_up_and_cap() {
    let all = RenameEvidence {
        body_hash_match: true,
        arity_match: true,
        param_names_match: true,
        same_directory: true,
    };
    assert_eq!(all.confidence(), 1_000_000);
    let none = RenameEvidence {
        body_hash_match: false,
        arity_match: false,
        param_names_match: false,
        same_directory: false,
    };
    assert_eq!(none.confidence(), 0);
    let no_body = RenameEvidence {
        body_hash_match: false,
        ..all
    };
    assert_eq!(no_body.confidence(), 300_000);
    assert!(no_body.confidence() < AUTO_ACCEPT_THRESHOLD);
    let body_only = RenameEvidence {
        body_hash_match: true,
        ..none
    };
    assert_eq!(body_only.confidence(), AUTO_ACCEPT_THRESHOLD);
}

#[test]
fn rename_without_body_match_is_not_accepted() {
    let deprecated = rename_node("pkg.old", "pkg/old.py", "one");
    let candidate = rename_node("pkg.new", "pkg/new.py", "two");
    let rename = RenameCandidate::from_nodes(&deprecated, &candidate);
    assert_eq!(
        rename.evidence,
        RenameEvidence {
            body_hash_match: false,
            arity_match: true,
            param_names_match: true,
            same_directory: true,
        }
    );
    assert_eq!(rename.confidence, 300_000);
    assert!(!rename.auto_accept());
    assert_eq!(rename.deprecated_fqn, "pkg.old");
    assert_eq!(rename.candidate_fqn, "pkg.new");
    assert_eq!(rename.deprecated_node_id, deprecated.id);
    assert_eq!(rename.candidate_node_id, candidate.id);
}

#[test]
fn rename_compares_names_across_signature_variants_and_windows_paths() {
    let mut deprecated = rename_node("pkg.old", "pkg\\old.py", "x");
    deprecated.signature = Signature::Typed {
        params: vec![TypedParam {
            name: "value".to_string(),
            type_annotation: "int".to_string(),
            has_default: false,
        }],
        return_type: "int".to_string(),
        is_async: false,
        is_generic: false,
    };
    let candidate = rename_node("pkg.new", "pkg/new.py", "y");
    let rename = RenameCandidate::from_nodes(&deprecated, &candidate);
    assert!(rename.evidence.arity_match);
    assert!(rename.evidence.param_names_match);
    assert!(rename.evidence.same_directory);

    let mut untyped = rename_node("pkg.other", "lib/other.py", "x");
    untyped.signature = Signature::Untyped { arity: Some(1) };
    let rename = RenameCandidate::from_nodes(&deprecated, &untyped);
    assert!(rename.evidence.body_hash_match);
    assert!(rename.evidence.arity_match);
    assert!(!rename.evidence.param_names_match);
    assert!(!rename.evidence.same_directory);
    assert_eq!(rename.confidence, 850_000);

    let bare = rename_node("pkg.bare", "bare.py", "z");
    let elsewhere = rename_node("pkg.else", "bare.py", "w");
    let rename = RenameCandidate::from_nodes(&bare, &elsewhere);
    assert!(rename.evidence.same_directory);
}
