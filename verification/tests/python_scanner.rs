use neurograph::parser::{
    build_signature, extract_call_tokens, hash_normalized_lines, leading_spaces,
    module_fqn_for_path, normalize_rel_path, parse_class_name, parse_def_signature,
    parse_import_aliases, parse_import_part, short_token, should_visit_path, split_lines,
    split_on_top_level_char, split_top_level, strip_comment,
};
use neurograph::project::{scan_python_sources, SourceFile};
use neurograph::scanner::parse_python_file;
use neurograph::schema::{
    EdgeKind, GraphVersion, NodeId, NodeKind, PartialParam, ResolutionMethod, Signature,
    TypedParam,
};

fn source(relative_path: &str, module_fqn: &str, text: &str) -> SourceFile {
    SourceFile {
        relative_path: relative_path.to_string(),
        module_fqn: module_fqn.to_string(),
        source: text.to_string(),
    }
}

#[test]
fn scanner_extracts_python_entities_and_edges() {
    let files = vec![
        source(
            "app.py",
            "app",
            r#"
import helpers as helpers

class Parser:
    def parse(self, value: str) -> str:
        cleaned = helpers.clean(value)
        return self.render(cleaned)

    def render(self, value):
        return value

def run(config):
    parser = Parser()
    return parser.parse(config)
"#,
        ),
        source(
            "helpers.py",
            "helpers",
            "def clean(value: str) -> str:\n    return value.strip()\n",
        ),
    ];

    let parsed = scan_python_sources(&files, GraphVersion::initial());
    assert!(parsed.nodes.iter().any(|node| node.fqn == "app.Parser.parse"));
    assert!(parsed.nodes.iter().any(|node| node.fqn == "helpers.clean"));
    assert!(parsed
        .edge_drafts
        .iter()
        .any(|edge| edge.kind == EdgeKind::Imports));
    assert!(parsed
        .edge_drafts
        .iter()
        .any(|edge| edge.kind == EdgeKind::Calls));
    assert!(parsed
        .edge_drafts
        .iter()
        .any(|edge| edge.kind == EdgeKind::Instantiates));
}

#[test]
fn scanner_tracks_unresolved_calls() {
    let files = vec![source(
        "app.py",
        "app",
        "def run(value):\n    return missing_call(value)\n",
    )];
    let parsed = scan_python_sources(&files, GraphVersion::initial());
    assert_eq!(parsed.unresolved_calls.len(), 1);
    assert_eq!(
        parsed.unresolved_calls[0].1,
        vec!["missing_call".to_string()]
    );
}

#[test]
fn scanned_edges_carry_the_expected_resolution() {
    let files = vec![
        source(
            "app.py",
            "app",
            "import helpers as helpers\n\nclass Parser:\n    def parse(self, value: str) -> str:\n        cleaned = helpers.clean(value)\n        return self.render(cleaned)\n\n    def render(self, value):\n        return value\n\ndef run(config):\n    parser = Parser()\n    return parser.parse(config)\n",
        ),
        source(
            "helpers.py",
            "helpers",
            "def clean(value: str) -> str:\n    return value.strip()\n",
        ),
    ];
    let parsed = scan_python_sources(&files, GraphVersion::initial());
    assert_eq!(parsed.scanned_files, 2);
    assert!(parsed.warnings.is_empty());

    let id = |fqn: &str| NodeId::new("python", fqn);
    let find = |source: &NodeId, target: &NodeId| {
        parsed
            .edge_drafts
            .iter()
            .find(|edge| &edge.source == source && &edge.target == target)
    };

    let import = find(&id("app"), &id("helpers")).unwrap();
    assert_eq!(import.kind, EdgeKind::Imports);
    assert_eq!(import.confidence, 1_000_000);
    assert_eq!(import.resolution, ResolutionMethod::Static);

    let via_alias = find(&id("app.Parser.parse"), &id("helpers.clean")).unwrap();
    assert_eq!(via_alias.kind, EdgeKind::Calls);
    assert_eq!(via_alias.confidence, 550_000);
    assert_eq!(via_alias.resolution, ResolutionMethod::Heuristic);

    let via_self = find(&id("app.Parser.parse"), &id("app.Parser.render")).unwrap();
    assert_eq!(via_self.confidence, 750_000);
    assert_eq!(via_self.resolution, ResolutionMethod::TypeInferred);

    let construct = find(&id("app.run"), &id("app.Parser")).unwrap();
    assert_eq!(construct.kind, EdgeKind::Instantiates);
    assert_eq!(construct.confidence, 550_000);

    assert!(find(&id("app.run"), &id("app.Parser.parse")).is_none());
    assert_eq!(
        parsed.unresolved_calls,
        vec![
            (id("app.run"), vec!["parse".to_string()]),
            (id("helpers.clean"), vec!["strip".to_string()]),
        ]
    );
}

#[test]
fn unique_short_names_resolve_across_modules() {
    let files = vec![
        source("a.py", "a", "def caller():\n    unique_target()\n    unique_target()\n"),
        source("b.py", "b", "def unique_target():\n    pass\n"),
    ];
    let parsed = scan_python_sources(&files, GraphVersion::initial());
    let calls: Vec<_> = parsed
        .edge_drafts
        .iter()
        .filter(|edge| edge.kind == EdgeKind::Calls)
        .collect();
    assert_eq!(calls.len(), 1);
    assert_eq!(calls[0].source, NodeId::new("python", "a.caller"));
    assert_eq!(calls[0].target, NodeId::new("python", "b.unique_target"));
    assert_eq!(calls[0].confidence, 350_000);
    assert_eq!(calls[0].resolution, ResolutionMethod::Heuristic);
    assert!(parsed.unresolved_calls.is_empty());
}

#[test]
fn an_empty_file_still_yields_its_module_node() {
    let files = vec![source("empty.py", "empty", "")];
    let parsed = scan_python_sources(&files, GraphVersion::initial());
    assert_eq!(parsed.nodes.len(), 1);
    assert_eq!(parsed.nodes[0].location.end_line, 1);
    assert!(parsed.warnings.is_empty());
}

#[test]
fn file_scan_builds_module_class_and_method_nodes() {
    let text = "class Shape:\n    def area(self) -> int:\n        return compute(self)\n\ndef helper(x, y=2):\n    # comment\n    return x\n";
    let parsed = parse_python_file("pkg/shapes.py", "pkg.shapes", text, GraphVersion::initial());
    let fqns: Vec<&str> = parsed.nodes.iter().map(|node| node.fqn.as_str()).collect();
    assert_eq!(
        fqns,
        vec!["pkg.shapes", "pkg.shapes.Shape.area", "pkg.shapes.Shape", "pkg.shapes.helper"]
    );
    let module = &parsed.nodes[0];
    assert_eq!(module.kind, NodeKind::Module);
    assert_eq!(module.name, "shapes");
    assert_eq!(module.location.start_line, 1);
    assert_eq!(module.location.end_line, 7);
    assert_eq!(module.file_path, "pkg/shapes.py");
    assert_eq!(module.id, NodeId::new("python", "pkg.shapes"));

    let area = &parsed.nodes[1];
    assert_eq!(
        area.kind,
        NodeKind::Method {
            parent_fqn: "pkg.shapes.Shape".to_string()
        }
    );
    assert_eq!(area.location.start_line, 2);
    assert_eq!(area.location.end_line, 4);

    let class = &parsed.nodes[2];
    assert_eq!(class.kind, NodeKind::Class);
    assert_eq!(class.location.start_line, 1);
    assert_eq!(class.location.end_line, 4);

    let helper = &parsed.nodes[3];
    assert_eq!(helper.kind, NodeKind::Function);
    assert_eq!(helper.location.start_line, 5);
    assert_eq!(helper.location.end_line, 7);
    assert_eq!(
        helper.signature,
        Signature::PartiallyTyped {
            params: vec![
                PartialParam {
                    name: "x".to_string(),
                    type_annotation: None,
                    has_default: false,
                },
                PartialParam {
                    name: "y".to_string(),
                    type_annotation: None,
                    has_default: true,
                },
            ],
            return_type: None,
            is_async: false,
        }
    );
    assert_eq!(
        helper.body_hash,
        hash_normalized_lines(&vec!["    # comment".to_string(), "    return x".to_string()])
    );

    assert_eq!(parsed.callsites.len(), 1);
    assert_eq!(parsed.callsites[0].token, "compute");
    assert_eq!(parsed.callsites[0].source, NodeId::new("python", "pkg.shapes.Shape.area"));
    assert_eq!(
        parsed.callsites[0].parent_class_fqn,
        Some("pkg.shapes.Shape".to_string())
    );
}

#[test]
fn body_hash_ignores_whitespace_and_comments() {
    let lines = vec!["def run(value):".to_string(), "    return value  # done".to_string()];
    assert_eq!(
        hash_normalized_lines(&lines),
        "367c01a93957f4cf8433104ff2426cc8f508041fd692a4ab236921d4b340b91c"
    );
    assert_eq!(
        hash_normalized_lines(&vec![]),
        "e3b0c44298fc1c149afbf4c8996fb92427ae41e4649b934ca495991b7852b855"
    );
}

#[test]
fn top_level_splitting_respects_brackets() {
    assert_eq!(
        split_top_level("a, b: Dict[str, int], c=(1, 2)"),
        vec!["a", "b: Dict[str, int]", "c=(1, 2)"]
    );
    assert_eq!(split_top_level(""), Vec::<String>::new());
    assert_eq!(split_top_level("a,"), vec!["a"]);
    assert_eq!(
        split_on_top_level_char("x: List[int] = []", '='),
        Some(("x: List[int] ".to_string(), " []".to_string()))
    );
    assert_eq!(split_on_top_level_char("f(a=1)", '='), None);
}

#[test]
fn signatures_pick_the_least_specific_valid_variant() {
    assert_eq!(
        build_signature("", None, false),
        Signature::Typed {
            params: vec![],
            return_type: "None".to_string(),
            is_async: false,
            is_generic: false,
        }
    );
    assert_eq!(
        build_signature("value: str, items: list[int] = []", Some("str".to_string()), true),
        Signature::Typed {
            params: vec![
                TypedParam {
                    name: "value".to_string(),
                    type_annotation: "str".to_string(),
                    has_default: false,
                },
                TypedParam {
                    name: "items".to_string(),
                    type_annotation: "list[int]".to_string(),
                    has_default: true,
                },
            ],
            return_type: "str".to_string(),
            is_async: true,
            is_generic: true,
        }
    );
    assert_eq!(
        build_signature("self, *args, **kwargs", Some("int".to_string()), false),
        Signature::PartiallyTyped {
            params: vec![
                PartialParam {
                    name: "self".to_string(),
                    type_annotation: None,
                    has_default: false,
                },
                PartialParam {
                    name: "args".to_string(),
                    type_annotation: None,
                    has_default: false,
                },
                PartialParam {
                    name: "kwargs".to_string(),
                    type_annotation: None,
                    has_default: false,
                },
            ],
            return_type: Some("int".to_string()),
            is_async: false,
        }
    );
    assert_eq!(
        build_signature("a: int, /, *, b: int", None, false),
        Signature::PartiallyTyped {
            params: vec![
                PartialParam {
                    name: "a".to_string(),
                    type_annotation: Some("int".to_string()),
                    has_default: false,
                },
                PartialParam {
                    name: "b".to_string(),
                    type_annotation: Some("int".to_string()),
                    has_default: false,
                },
            ],
            return_type: None,
            is_async: false,
        }
    );
}

#[test]
fn headers_are_recognised_by_their_patterns() {
    assert_eq!(parse_class_name("class Parser(Base):"), Some("Parser".to_string()));
    assert_eq!(parse_class_name("classy = 1"), None);
    let (name, signature) = parse_def_signature("async def fetch(url: str) -> bytes:").unwrap();
    assert_eq!(name, "fetch");
    assert_eq!(
        signature,
        Signature::Typed {
            params: vec![TypedParam {
                name: "url".to_string(),
                type_annotation: "str".to_string(),
                has_default: false,
            }],
            return_type: "bytes".to_string(),
            is_async: true,
            is_generic: false,
        }
    );
    assert!(parse_def_signature("define(x)").is_none());
    assert_eq!(
        extract_call_tokens("if check(x): return self.render(helpers.clean(x))"),
        vec!["check", "self.render", "helpers.clean"]
    );
    assert_eq!(extract_call_tokens("while (x):"), Vec::<String>::new());
}

#[test]
fn import_lines_bind_aliases() {
    assert_eq!(
        parse_import_aliases("import os.path, json as j"),
        vec![
            ("path".to_string(), "os.path".to_string()),
            ("j".to_string(), "json".to_string()),
        ]
    );
    assert_eq!(
        parse_import_aliases("from pkg.mod import a, b as c, *"),
        vec![
            ("a".to_string(), "pkg.mod.a".to_string()),
            ("c".to_string(), "pkg.mod.b".to_string()),
        ]
    );
    assert_eq!(parse_import_aliases("x = 1"), Vec::<(String, String)>::new());
    assert_eq!(
        parse_import_part("  numpy as np "),
        Some(("numpy".to_string(), Some("np".to_string())))
    );
    assert_eq!(parse_import_part("   "), None);
}

#[test]
fn small_text_rules() {
    assert_eq!(strip_comment("x = 1  # note"), "x = 1  ");
    assert_eq!(short_token("self.helpers.clean"), "clean");
    assert_eq!(short_token("run"), "run");
    assert_eq!(leading_spaces("    return x"), 4);
    assert_eq!(leading_spaces("\treturn x"), 0);
    assert_eq!(
        split_lines("a\r\nb\n\nc"),
        vec!["a".to_string(), "b".to_string(), "".to_string(), "c".to_string()]
    );
    assert_eq!(split_lines("a\n"), vec!["a".to_string()]);
}

#[test]
fn paths_map_to_modules() {
    assert!(!should_visit_path(Some("__pycache__".to_string())));
    assert!(!should_visit_path(Some(".git".to_string())));
    assert!(should_visit_path(Some("src".to_string())));
    assert!(should_visit_path(None));

    assert_eq!(
        module_fqn_for_path(
            Some("proj".to_string()),
            &vec![Some("my-pkg".to_string()), Some("util.py".to_string())]
        ),
        "my_pkg.util"
    );
    assert_eq!(
        module_fqn_for_path(
            Some("proj".to_string()),
            &vec![Some("pkg".to_string()), Some("__init__.py".to_string())]
        ),
        "pkg"
    );
    assert_eq!(
        module_fqn_for_path(
            Some("my-root".to_string()),
            &vec![Some("__init__.py".to_string())]
        ),
        "my_root"
    );
    assert_eq!(module_fqn_for_path(None, &vec![]), "project");
    assert_eq!(normalize_rel_path(".\\pkg\\mod.py"), "pkg/mod.py");
    assert_eq!(normalize_rel_path("./././a.py"), "a.py");
}
