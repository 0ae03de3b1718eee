use neurograph::errors::{SchemaError, ToolCallError};
use neurograph::graph::GraphEngine;
use neurograph::schema::{
    ConfidenceConfig, DeprecatedMetadata, DeprecationReason, EdgeDraft, EdgeKind, GraphVersion,
    Node, NodeId, NodeKind, NodeStatus, PartialParam, ResolutionMethod, Signature, SourceLocation,
};

fn engine_node(language: &str, fqn: &str) -> Node {
    Node {
        id: NodeId::new(language, fqn),
        language: language.to_string(),
        name: fqn.rsplit('.').next().unwrap().to_string(),
        fqn: fqn.to_string(),
        kind: NodeKind::Function,
        file_path: format!("src/{}.py", fqn.replace('.', "/")),
        location: SourceLocation {
            start_line: 1,
            end_line: 10,
        },
        status: NodeStatus::Active,
        signature: Signature::PartiallyTyped {
            params: vec![PartialParam {
                name: "config".to_string(),
                type_annotation: None,
                has_default: false,
            }],
            return_type: None,
            is_async: false,
        },
        body_hash: "abc123".repeat(10) + "ab",
        introduced_at_version: GraphVersion::initial(),
    }
}

fn draft(source: &Node, target: &Node, confidence: i64, resolution: ResolutionMethod) -> EdgeDraft {
    EdgeDraft {
        source: source.id.clone(),
        target: target.id.clone(),
        kind: EdgeKind::Calls,
        confidence,
        resolution,
        introduced_at_version: GraphVersion::initial(),
    }
}

#[test]
fn subgraph_queries_partition_by_confidence() {
    let mut engine = GraphEngine::new(ConfidenceConfig::default());
    let target = engine_node("python", "pkg.target");
    let caller = engine_node("python", "pkg.caller");
    let callee = engine_node("python", "pkg.callee");
    engine.upsert_node(target.clone()).unwrap();
    engine.upsert_node(caller.clone()).unwrap();
    engine.upsert_node(callee.clone()).unwrap();

    engine
        .write_edge(EdgeDraft {
            source: caller.id.clone(),
            target: target.id.clone(),
            kind: EdgeKind::Calls,
            confidence: 800_000,
            resolution: ResolutionMethod::TypeInferred,
            introduced_at_version: GraphVersion::initial(),
        })
        .unwrap();
    engine
        .write_edge(EdgeDraft {
            source: target.id.clone(),
            target: callee.id.clone(),
            kind: EdgeKind::Calls,
            confidence: 400_000,
            resolution: ResolutionMethod::Heuristic,
            introduced_at_version: GraphVersion::initial(),
        })
        .unwrap();

    let summary = engine.get_subgraph(target.id.as_str(), 700_000, 25).unwrap();
    assert_eq!(summary.total_callers, 1);
    assert_eq!(summary.total_callees, 1);
    assert_eq!(summary.high_confidence_callers.len(), 1);
    assert_eq!(summary.low_confidence_callees.len(), 1);
}

#[test]
fn applying_high_confidence_rename_reroutes_edges() {
    let mut engine = GraphEngine::new(ConfidenceConfig::default());
    let caller = engine_node("python", "pkg.caller");
    let mut deprecated = engine_node("python", "pkg.old_name");
    let mut replacement = engine_node("python", "pkg.new_name");
    deprecated.body_hash = "same".repeat(16);
    replacement.body_hash = "same".repeat(16);
    replacement.file_path = deprecated.file_path.clone();
    replacement.signature = deprecated.signature.clone();
    engine.upsert_node(caller.clone()).unwrap();
    engine.upsert_node(deprecated.clone()).unwrap();
    engine.upsert_node(replacement.clone()).unwrap();
    engine
        .write_edge(EdgeDraft {
            source: caller.id.clone(),
            target: deprecated.id.clone(),
            kind: EdgeKind::Calls,
            confidence: 1_000_000,
            resolution: ResolutionMethod::Static,
            introduced_at_version: GraphVersion::initial(),
        })
        .unwrap();

    let candidate = engine
        .apply_rename(deprecated.id.as_str(), replacement.id.as_str())
        .unwrap();
    assert!(candidate.auto_accept());
    assert_eq!(engine.edges()[0].target, replacement.id);
    assert!(matches!(
        engine.node(&deprecated.id).unwrap().status,
        NodeStatus::Deprecated(_)
    ));
}

#[test]
fn upsert_then_read_back() {
    let mut engine = GraphEngine::new(ConfidenceConfig::default());
    let n = engine_node("python", "pkg.read");
    assert_eq!(engine.upsert_node(n.clone()), Ok(n.clone()));
    assert_eq!(engine.node(&n.id), Some(&n));
    assert_eq!(engine.get_node_detail(n.id.as_str()), Ok(n.clone()));
    let upper = n.id.as_str().to_uppercase();
    assert_eq!(engine.get_node_detail(&upper), Ok(n.clone()));

    let mut changed = n.clone();
    changed.body_hash = "changed".to_string();
    engine.upsert_node(changed.clone()).unwrap();
    assert_eq!(engine.node(&n.id), Some(&changed));
}

#[test]
fn upsert_rejects_mismatched_ids() {
    let mut engine = GraphEngine::new(ConfidenceConfig::default());
    let mut n = engine_node("python", "pkg.one");
    n.id = NodeId::new("python", "pkg.two");
    let result = engine.upsert_node(n);
    assert_eq!(
        result,
        Err(SchemaError::NodeIdMismatch {
            provided: NodeId::new("python", "pkg.two"),
            expected: NodeId::new("python", "pkg.one"),
        })
    );
    assert_eq!(engine.node(&NodeId::new("python", "pkg.two")), None);
}

#[test]
fn write_edge_names_each_refusal() {
    let mut engine = GraphEngine::new(ConfidenceConfig::default());
    let a = engine_node("python", "pkg.a");
    let b = engine_node("python", "pkg.b");
    let missing = engine_node("python", "pkg.missing");
    engine.upsert_node(a.clone()).unwrap();
    engine.upsert_node(b.clone()).unwrap();

    assert_eq!(
        engine.write_edge(draft(&a, &b, 1_500_000, ResolutionMethod::Heuristic)),
        Err(SchemaError::InvalidConfidence(1_500_000))
    );
    assert_eq!(
        engine.write_edge(draft(&a, &b, 500_000, ResolutionMethod::Static)),
        Err(SchemaError::ConfidenceMismatch {
            resolution: ResolutionMethod::Static,
            confidence: 500_000,
        })
    );
    assert_eq!(
        engine.write_edge(draft(&missing, &b, 500_000, ResolutionMethod::Heuristic)),
        Err(SchemaError::MissingNode(missing.id.as_str().to_string()))
    );
    assert_eq!(
        engine.write_edge(draft(&a, &missing, 500_000, ResolutionMethod::Heuristic)),
        Err(SchemaError::MissingNode(missing.id.as_str().to_string()))
    );
    assert_eq!(
        engine.write_edge(draft(&a, &b, 950_000, ResolutionMethod::TypeInferred)),
        Err(SchemaError::ConfidenceOutOfCalibratedRange {
            resolution: ResolutionMethod::TypeInferred,
            confidence: 950_000,
            min: 700_000,
            max: 900_000,
        })
    );
    assert!(engine.edges().is_empty());

    let written = engine
        .write_edge(draft(&a, &b, 500_000, ResolutionMethod::Heuristic))
        .unwrap();
    assert_eq!(written.confidence(), 500_000);
    assert_eq!(engine.edges().len(), 1);
}

#[test]
fn deprecated_nodes_refuse_new_edges() {
    let mut engine = GraphEngine::new(ConfidenceConfig::default());
    let a = engine_node("python", "pkg.a");
    let b = engine_node("python", "pkg.b");
    engine.upsert_node(a.clone()).unwrap();
    engine.upsert_node(b.clone()).unwrap();
    engine.increment_version();
    let metadata = DeprecatedMetadata {
        expires_in_syncs: 3,
        successor_id: None,
        reason: DeprecationReason::Unresolved,
    };
    let deprecated = engine.deprecate_node(b.id.as_str(), metadata.clone()).unwrap();
    assert_eq!(deprecated.status, NodeStatus::Deprecated(metadata));
    assert_eq!(deprecated.introduced_at_version.value(), 2);
    assert_eq!(
        engine.write_edge(draft(&a, &b, 1_000_000, ResolutionMethod::Static)),
        Err(SchemaError::EdgeTargetsDeprecatedNode { target: b.id.clone() })
    );
}

#[test]
fn deprecate_node_reports_bad_and_missing_ids() {
    let mut engine = GraphEngine::new(ConfidenceConfig::default());
    let metadata = DeprecatedMetadata {
        expires_in_syncs: 1,
        successor_id: None,
        reason: DeprecationReason::Unresolved,
    };
    assert_eq!(
        engine.deprecate_node("nope", metadata.clone()),
        Err(SchemaError::InvalidNodeId("nope".to_string()))
    );
    let absent = NodeId::new("python", "pkg.absent");
    assert_eq!(
        engine.deprecate_node(absent.as_str(), metadata),
        Err(SchemaError::MissingNode(absent.as_str().to_string()))
    );
}

#[test]
fn versions_and_snapshots() {
    let mut engine = GraphEngine::new(ConfidenceConfig::default());
    assert_eq!(engine.current_version().value(), 1);
    let snapshot = engine.create_snapshot("PR-1".to_string());
    assert!(!snapshot.is_stale());
    assert_eq!(engine.increment_version().value(), 2);
    assert_eq!(engine.current_version().value(), 2);
    let later = engine.create_snapshot("PR-2".to_string());
    assert_eq!(later.baseline_version.value(), 2);
    assert_eq!(later.current_baseline_version.value(), 2);
    assert_eq!(later.pr_identifier, "PR-2");
}

#[test]
fn confidence_config_can_be_replaced() {
    let mut engine = GraphEngine::new(ConfidenceConfig::default());
    assert!(!engine.confidence_config().is_calibrated);
    let calibrated = ConfidenceConfig {
        is_calibrated: true,
        ..ConfidenceConfig::default()
    };
    engine.set_confidence_config(calibrated.clone());
    assert_eq!(engine.confidence_config(), &calibrated);
}

#[test]
fn overlay_deletion_hides_node_detail() {
    let mut engine = GraphEngine::new(ConfidenceConfig::default());
    let n = engine_node("python", "pkg.gone");
    engine.upsert_node(n.clone()).unwrap();
    engine.mark_node_deleted_in_overlay(n.id.as_str()).unwrap();
    assert_eq!(
        engine.get_node_detail(n.id.as_str()),
        Err(ToolCallError::NodeDeletedInPr {
            fqn: "pkg.gone".to_string(),
            suggestion: "Flag callers of this node as potentially broken by the PR.".to_string(),
        })
    );
    let absent = NodeId::new("python", "pkg.absent");
    assert_eq!(
        engine.mark_node_deleted_in_overlay(absent.as_str()),
        Err(ToolCallError::UnknownNode {
            requested_id: absent.as_str().to_string(),
            suggestion: "Use find_callers('<name>') to search by human-readable name.".to_string(),
        })
    );
    assert_eq!(
        engine.get_node_detail("xyz"),
        Err(ToolCallError::UnknownNode {
            requested_id: "xyz".to_string(),
            suggestion: "Use find_callers('<name>') to search by human-readable name.".to_string(),
        })
    );
}

#[test]
fn low_confidence_rename_changes_nothing() {
    let mut engine = GraphEngine::new(ConfidenceConfig::default());
    let caller = engine_node("python", "pkg.caller");
    let old = engine_node("python", "pkg.old");
    let mut new = engine_node("python", "pkg.lib.new");
    new.body_hash = "different".to_string();
    engine.upsert_node(caller.clone()).unwrap();
    engine.upsert_node(old.clone()).unwrap();
    engine.upsert_node(new.clone()).unwrap();
    engine
        .write_edge(draft(&caller, &old, 1_000_000, ResolutionMethod::Static))
        .unwrap();
    let candidate = engine.detect_rename(old.id.as_str(), new.id.as_str()).unwrap();
    assert!(!candidate.auto_accept());
    let applied = engine.apply_rename(old.id.as_str(), new.id.as_str()).unwrap();
    assert_eq!(applied, candidate);
    assert_eq!(engine.edges()[0].target, old.id);
    assert_eq!(engine.node(&old.id).unwrap().status, NodeStatus::Active);
    assert!(matches!(
        engine.detect_rename("bad", new.id.as_str()),
        Err(ToolCallError::UnknownNode { .. })
    ));
}

#[test]
fn subgraph_rejects_bad_budgets_and_unknown_nodes() {
    let engine = GraphEngine::new(ConfidenceConfig::default());
    assert_eq!(
        engine.get_subgraph("abc", 700_000, 0),
        Err(ToolCallError::InvalidSchema {
            detail: "max_nodes must be at least 1".to_string(),
        })
    );
    assert_eq!(
        engine.get_subgraph("abc", 700_000, 26),
        Err(ToolCallError::InvalidSchema {
            detail: "max_nodes may not exceed the hard cap of 25".to_string(),
        })
    );
    assert!(matches!(
        engine.get_subgraph("abc", 700_000, 5),
        Err(ToolCallError::UnknownNode { .. })
    ));
}

#[test]
fn subgraph_truncates_callers_first_and_counts_omissions() {
    let mut engine = GraphEngine::new(ConfidenceConfig::default());
    let hub = engine_node("python", "pkg.hub");
    engine.upsert_node(hub.clone()).unwrap();
    for i in 0..4 {
        let caller = engine_node("python", &format!("pkg.caller{i}"));
        engine.upsert_node(caller.clone()).unwrap();
        let confidence = if i % 2 == 0 { 800_000 } else { 400_000 };
        let resolution = if i % 2 == 0 {
            ResolutionMethod::TypeInferred
        } else {
            ResolutionMethod::Heuristic
        };
        engine.write_edge(draft(&caller, &hub, confidence, resolution)).unwrap();
    }
    let callee = engine_node("python", "pkg.callee");
    engine.upsert_node(callee.clone()).unwrap();
    engine
        .write_edge(draft(&hub, &callee, 1_000_000, ResolutionMethod::Static))
        .unwrap();

    let summary = engine.get_subgraph(hub.id.as_str(), 700_000, 3).unwrap();
    assert_eq!(summary.total_callers, 4);
    assert_eq!(summary.total_callees, 1);
    assert!(summary.truncated);
    assert_eq!(summary.omitted_count, Some(2));
    assert_eq!(summary.high_confidence_callers.len(), 2);
    assert_eq!(summary.low_confidence_callers.len(), 1);
    assert!(summary.high_confidence_callees.is_empty());
    assert!(summary.low_confidence_callees.is_empty());
    assert_eq!(summary.high_confidence_callers[0].fqn, "pkg.caller0");
    assert_eq!(summary.high_confidence_callers[1].fqn, "pkg.caller2");
    assert_eq!(summary.low_confidence_callers[0].fqn, "pkg.caller1");
    assert_eq!(summary.queried_node_fqn, "pkg.hub");

    let full = engine.get_subgraph(hub.id.as_str(), 700_000, 25).unwrap();
    assert!(!full.truncated);
    assert_eq!(full.omitted_count, None);
    assert_eq!(full.high_confidence_callees.len(), 1);
    assert!(full.high_confidence_callees[0].source_available);
}

#[test]
fn subgraph_refuses_more_than_fifty_neighbours() {
    let mut engine = GraphEngine::new(ConfidenceConfig::default());
    let hub = engine_node("python", "pkg.hub");
    engine.upsert_node(hub.clone()).unwrap();
    for i in 0..51 {
        let caller = engine_node("python", &format!("pkg.c{i}"));
        engine.upsert_node(caller.clone()).unwrap();
        engine
            .write_edge(draft(&caller, &hub, 1_000_000, ResolutionMethod::Static))
            .unwrap();
    }
    assert_eq!(
        engine.get_subgraph(hub.id.as_str(), 700_000, 10),
        Err(ToolCallError::SubgraphTooLarge {
            node_count: 51,
            cap: 10,
            suggestion: "Reduce traversal depth or review a more specific entry point.".to_string(),
        })
    );
}
