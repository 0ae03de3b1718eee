use neurograph::graph::GraphEngine;
use neurograph::project::{scan_python_sources, SourceFile};
use neurograph::schema::{ConfidenceConfig, GraphVersion, NodeStatus};

fn project_file(relative_path: &str, module_fqn: &str, text: &str) -> SourceFile {
    SourceFile {
        relative_path: relative_path.to_string(),
        module_fqn: module_fqn.to_string(),
        source: text.to_string(),
    }
}

#[test]
fn a_scanned_project_loads_into_a_fresh_graph() {
    let files = vec![
        project_file(
            "app.py",
            "app",
            "import helpers as helpers\nfrom helpers import clean\n\nclass Parser:\n    def parse(self, value: str) -> str:\n        cleaned = helpers.clean(value)\n        return self.render(cleaned)\n\n    def render(self, value):\n        return clean(value)\n\ndef run(config):\n    parser = Parser()\n    return parser.parse(config)\n",
        ),
        project_file(
            "helpers.py",
            "helpers",
            "def clean(value: str) -> str:\n    return value.strip()\n\ndef unique_helper():\n    return clean('x')\n",
        ),
    ];
    let parsed = scan_python_sources(&files, GraphVersion::initial());
    let mut engine = GraphEngine::new(ConfidenceConfig::default());
    for node in &parsed.nodes {
        assert_eq!(engine.upsert_node(node.clone()), Ok(node.clone()));
    }
    for draft in &parsed.edge_drafts {
        let edge = engine.write_edge(draft.clone()).unwrap();
        assert_eq!(edge.source, draft.source);
        assert_eq!(edge.target, draft.target);
    }
    assert_eq!(engine.edges().len(), parsed.edge_drafts.len());
    for (i, a) in parsed.edge_drafts.iter().enumerate() {
        for b in parsed.edge_drafts.iter().skip(i + 1) {
            assert!(!(a.source == b.source && a.target == b.target && a.kind == b.kind));
        }
    }
}

#[test]
fn applying_a_rename_twice_changes_nothing_more() {
    let files = vec![
        project_file("a.py", "a", "def old_name(value):\n    return value\n\ndef caller(value):\n    return old_name(value)\n"),
        project_file("b.py", "b", "def new_name(value):\n    return value\n"),
    ];
    let parsed = scan_python_sources(&files, GraphVersion::initial());
    let mut engine = GraphEngine::new(ConfidenceConfig::default());
    for node in &parsed.nodes {
        engine.upsert_node(node.clone()).unwrap();
    }
    for draft in &parsed.edge_drafts {
        engine.write_edge(draft.clone()).unwrap();
    }
    let old = parsed.nodes.iter().find(|n| n.fqn == "a.old_name").unwrap();
    let new = parsed.nodes.iter().find(|n| n.fqn == "b.new_name").unwrap();
    let first = engine.apply_rename(old.id.as_str(), new.id.as_str()).unwrap();
    assert!(first.auto_accept());
    assert!(first.evidence.body_hash_match);
    assert!(!first.evidence.same_directory);
    let edges_after_first: Vec<_> = engine.edges().iter().map(|e| e.target.clone()).collect();
    assert!(edges_after_first.iter().all(|t| t != &old.id));
    assert!(edges_after_first.contains(&new.id));
    engine.apply_rename(old.id.as_str(), new.id.as_str()).unwrap();
    let edges_after_second: Vec<_> = engine.edges().iter().map(|e| e.target.clone()).collect();
    assert_eq!(edges_after_first, edges_after_second);
    assert!(matches!(
        engine.node(&old.id).unwrap().status,
        NodeStatus::Deprecated(_)
    ));
}
