//! Linking the scanned files of a project: imports and call sites resolved
//! to nodes, deduplicated edge drafts, and the calls that stay unresolved.

use vstd::hash_map::StringHashMap;
use vstd::prelude::*;

use crate::graph::draft_edge;
use crate::parser::{filter_map_seq, short_token};
use crate::scanner::{
    has_node_id, is_scanned_node, lemma_parsed_file_invariant, module_id_of, scan_invariant, ScanV, ctx_of, parse_python_file, parsed_file_of, CallsiteRecord, CallsiteV, ImportRecord, ImportV,
    ParsedFileV,
};
use crate::parser::{lines_of, texts_view};
use crate::schema::{
    node_id_of, EdgeDraft, EdgeKind, EdgeV, GraphVersion, Node, NodeId, NodeV,
    ResolutionMethod, CONFIDENCE_SCALE,
};
use crate::text::{after_last, find_from, last_index_of, starts_with};

verus! {

/// Confidence of a call resolved through the enclosing class.
pub const TYPE_INFERRED_CONFIDENCE: i64 = 750_000;

/// Confidence of a call resolved through an alias or the module's own names.
pub const ALIAS_CONFIDENCE: i64 = 550_000;

/// Confidence of a call resolved by a project-wide unique short name.
pub const SHORT_NAME_CONFIDENCE: i64 = 350_000;

// ---------------------------------------------------------------- indexes

/// Nodes by fully qualified name; a later node replaces an earlier one.
pub open spec fn fqn_index(nodes: Seq<NodeV>) -> Map<Seq<char>, NodeV>
    decreases nodes.len(),
{
    if nodes.len() == 0 {
        Map::empty()
    } else {
        fqn_index(nodes.drop_last()).insert(nodes.last().fqn, nodes.last())
    }
}

/// Nodes by id; a later node replaces an earlier one.
pub open spec fn id_index(nodes: Seq<NodeV>) -> Map<Seq<char>, NodeV>
    decreases nodes.len(),
{
    if nodes.len() == 0 {
        Map::empty()
    } else {
        id_index(nodes.drop_last()).insert(nodes.last().id, nodes.last())
    }
}

/// The ids of the nodes with this short name, in order.
pub open spec fn ids_named(nodes: Seq<NodeV>, name: Seq<char>) -> Seq<Seq<char>> {
    filter_map_seq(nodes, |n: NodeV| if n.name == name { Some(n.id) } else { None })
}

/// The most recent binding of `key`.
pub open spec fn alias_lookup(aliases: Seq<(Seq<char>, Seq<char>)>, key: Seq<char>) -> Option<Seq<char>>
    decreases aliases.len(),
{
    if aliases.len() == 0 {
        None
    } else if aliases.last().0 == key {
        Some(aliases.last().1)
    } else {
        alias_lookup(aliases.drop_last(), key)
    }
}

/// Classes and structs are instantiated; everything else is called.
pub open spec fn edge_kind_for(n: NodeV) -> EdgeKind {
    if n.kind is Class || n.kind is Struct {
        EdgeKind::Instantiates
    } else {
        EdgeKind::Calls
    }
}

pub fn edge_kind_for_target(node: &Node) -> (r: EdgeKind)
    ensures
        r == edge_kind_for(node@),
{
    match node.kind {
        crate::schema::NodeKind::Class | crate::schema::NodeKind::Struct => EdgeKind::Instantiates,
        _ => EdgeKind::Calls,
    }
}

/// The node an import names: the imported name itself, or the module it
/// is taken from.
pub open spec fn import_target_of(target_fqn: Seq<char>, fqns: Map<Seq<char>, NodeV>) -> Option<NodeV> {
    if fqns.contains_key(target_fqn) {
        Some(fqns[target_fqn])
    } else {
        match last_index_of(target_fqn, '.') {
            Some(k) => if fqns.contains_key(target_fqn.take(k)) {
                Some(fqns[target_fqn.take(k)])
            } else {
                None
            },
            None => None,
        }
    }
}

pub fn resolve_import_target<'a>(target_fqn: &str, node_by_fqn: &'a StringHashMap<Node>) -> (r: Option<&'a Node>)
    ensures
        match import_target_of(target_fqn@, node_by_fqn@.map_values(|n: Node| n@)) {
            Some(n) => r matches Some(x) && x@ == n,
            None => r is None,
        },
{
    if let Some(node) = node_by_fqn.get(target_fqn) {
        return Some(node);
    }
    let cs = crate::text::chars_of(target_fqn);
    proof {
        crate::text::lemma_last_index_of(cs@, '.');
    }
    match crate::text::last_index_of_char(&cs, '.') {
        Some(k) => {
            assert(cs@.take(k as int) =~= cs@.subrange(0, k as int));
            let module_fqn = crate::text::string_of(&cs, 0, k);
            node_by_fqn.get(module_fqn.as_str())
        },
        None => None,
    }
}

/// How a call site resolves: the node, the edge kind, its confidence and
/// the resolution method. `self.` calls and bare names are tried against
/// the enclosing class first (type-inferred), then aliases and the module's
/// own names (heuristic), then a project-wide unique short name; dotted
/// names are tried through the alias of their head, then as written.
pub open spec fn callsite_resolution_of(
    c: CallsiteV,
    fqns: Map<Seq<char>, NodeV>,
    ids: Map<Seq<char>, NodeV>,
    names: Map<Seq<char>, Seq<Seq<char>>>,
) -> Option<(NodeV, EdgeKind, int, ResolutionMethod)> {
    let token = c.token;
    let self_candidate = match c.parent_class_fqn {
        Some(p) => if starts_with(token, "self."@) && fqns.contains_key(
            p + "."@ + token.skip("self."@.len() as int),
        ) {
            Some(fqns[p + "."@ + token.skip("self."@.len() as int)])
        } else {
            None
        },
        None => None,
    };
    if self_candidate is Some {
        Some((self_candidate->0, EdgeKind::Calls, TYPE_INFERRED_CONFIDENCE as int, ResolutionMethod::TypeInferred))
    } else if !token.contains('.') {
        let class_candidate = match c.parent_class_fqn {
            Some(p) => if fqns.contains_key(p + "."@ + token) {
                Some(fqns[p + "."@ + token])
            } else {
                None
            },
            None => None,
        };
        let alias_candidate = match alias_lookup(c.aliases, token) {
            Some(t) => if fqns.contains_key(t) {
                Some(fqns[t])
            } else {
                None
            },
            None => None,
        };
        let same_module = c.module_fqn + "."@ + token;
        let named = if names.contains_key(token) {
            names[token]
        } else {
            Seq::empty()
        };
        if class_candidate is Some {
            Some((class_candidate->0, EdgeKind::Calls, TYPE_INFERRED_CONFIDENCE as int, ResolutionMethod::TypeInferred))
        } else if alias_candidate is Some {
            Some((alias_candidate->0, edge_kind_for(alias_candidate->0), ALIAS_CONFIDENCE as int, ResolutionMethod::Heuristic))
        } else if fqns.contains_key(same_module) {
            Some((fqns[same_module], edge_kind_for(fqns[same_module]), ALIAS_CONFIDENCE as int, ResolutionMethod::Heuristic))
        } else if named.len() == 1 && ids.contains_key(named[0]) {
            Some((ids[named[0]], edge_kind_for(ids[named[0]]), SHORT_NAME_CONFIDENCE as int, ResolutionMethod::Heuristic))
        } else {
            None
        }
    } else {
        let k = find_from(token, seq!['.'], 0)->0;
        let head = token.take(k);
        let tail = token.skip(k + 1);
        let alias_candidate = match alias_lookup(c.aliases, head) {
            Some(t) => if fqns.contains_key(t + "."@ + tail) {
                Some(fqns[t + "."@ + tail])
            } else {
                None
            },
            None => None,
        };
        if alias_candidate is Some {
            Some((alias_candidate->0, edge_kind_for(alias_candidate->0), ALIAS_CONFIDENCE as int, ResolutionMethod::Heuristic))
        } else if fqns.contains_key(token) {
            Some((fqns[token], edge_kind_for(fqns[token]), ALIAS_CONFIDENCE as int, ResolutionMethod::Heuristic))
        } else {
            None
        }
    }
}

fn alias_get(aliases: &Vec<(String, String)>, key: &str) -> (r: Option<String>)
    ensures
        crate::schema::text_option_view(r) == alias_lookup(crate::parser::pairs_view(*aliases), key@),
{
    let ghost all = crate::parser::pairs_view(*aliases);
    let mut i = aliases.len();
    assert(all.take(i as int) =~= all);
    while i > 0
        invariant
            i <= aliases@.len(),
            all == crate::parser::pairs_view(*aliases),
            alias_lookup(all, key@) == alias_lookup(all.take(i as int), key@),
        decreases i,
    {
        assert(all.take(i as int).drop_last() =~= all.take(i - 1));
        if crate::text::same_text(aliases[i - 1].0.as_str(), key) {
            return Some(aliases[i - 1].1.clone());
        }
        i = i - 1;
    }
    None
}

pub open spec fn node_map_view(m: StringHashMap<Node>) -> Map<Seq<char>, NodeV> {
    m@.map_values(|n: Node| n@)
}

pub open spec fn name_map_view(m: StringHashMap<Vec<NodeId>>) -> Map<Seq<char>, Seq<Seq<char>>> {
    m@.map_values(|v: Vec<NodeId>| v@.map_values(|id: NodeId| id@))
}

fn joined(a: &str, b: &str) -> (r: String)
    ensures
        r@ == a@ + "."@ + b@,
{
    let mut s = String::from_str(a);
    s.append(".");
    s.append(b);
    s
}

fn resolve_callsite<'a>(
    callsite: &CallsiteRecord,
    node_by_fqn: &'a StringHashMap<Node>,
    node_by_id: &'a StringHashMap<Node>,
    short_name_index: &StringHashMap<Vec<NodeId>>,
) -> (r: Option<(&'a Node, EdgeKind, i64, ResolutionMethod)>)
    ensures
        match callsite_resolution_of(
            callsite@,
            node_map_view(*node_by_fqn),
            node_map_view(*node_by_id),
            name_map_view(*short_name_index),
        ) {
            Some((n, kind, confidence, resolution)) => r matches Some((x, k, c, m)) && x@ == n
                && k == kind && c == confidence && m == resolution,
            None => r is None,
        },
{
    let token = callsite.token.as_str();
    if let Some(parent_fqn) = &callsite.parent_class_fqn {
        if starts_with_text_prefix(token, "self.") {
            let tc = crate::text::chars_of(token);
            let plen = crate::text::chars_of("self.").len();
            proof {
                assert(tc@.skip(plen as int) =~= tc@.subrange(plen as int, tc@.len() as int));
            }
            let method_name = crate::text::string_of(&tc, plen, tc.len());
            let candidate = joined(parent_fqn.as_str(), method_name.as_str());
            if let Some(node) = node_by_fqn.get(candidate.as_str()) {
                return Some((node, EdgeKind::Calls, TYPE_INFERRED_CONFIDENCE, ResolutionMethod::TypeInferred));
            }
        }
    }
    if !crate::parser::contains_char(token, '.') {
        if let Some(parent_fqn) = &callsite.parent_class_fqn {
            let candidate = joined(parent_fqn.as_str(), token);
            if let Some(node) = node_by_fqn.get(candidate.as_str()) {
                return Some((node, EdgeKind::Calls, TYPE_INFERRED_CONFIDENCE, ResolutionMethod::TypeInferred));
            }
        }
        if let Some(alias_target) = alias_get(&callsite.aliases, token) {
            if let Some(node) = node_by_fqn.get(alias_target.as_str()) {
                return Some((node, edge_kind_for_target(node), ALIAS_CONFIDENCE, ResolutionMethod::Heuristic));
            }
        }
        let same_module = joined(callsite.module_fqn.as_str(), token);
        if let Some(node) = node_by_fqn.get(same_module.as_str()) {
            return Some((node, edge_kind_for_target(node), ALIAS_CONFIDENCE, ResolutionMethod::Heuristic));
        }
        if let Some(matches) = short_name_index.get(token) {
            if matches.len() == 1 {
                if let Some(node) = node_by_id.get(matches[0].as_str()) {
                    return Some((node, edge_kind_for_target(node), SHORT_NAME_CONFIDENCE, ResolutionMethod::Heuristic));
                }
            }
        }
        return None;
    }
    let tc = crate::text::chars_of(token);
    let mut dot: Vec<char> = Vec::new();
    dot.push('.');
    assert(dot@ =~= seq!['.']);
    proof {
        let j = choose|j: int| 0 <= j < tc@.len() && tc@[j] == '.';
        assert(tc@.subrange(j, j + 1) =~= seq!['.']);
        crate::text::lemma_find_from_complete(tc@, seq!['.'], 0, j);
    }
    let k = match crate::text::find_text(&tc, &dot, 0) {
        Some(k) => k,
        None => {
            return None;
        },
    };
    let tl = tc.len();
    assert(k + 1 <= tl);
    proof {
        assert(tc@.take(k as int) =~= tc@.subrange(0, k as int));
        assert(tc@.skip(k + 1) =~= tc@.subrange(k + 1, tc@.len() as int));
    }
    let head = crate::text::string_of(&tc, 0, k);
    let tail = crate::text::string_of(&tc, k + 1, tc.len());
    if let Some(alias_target) = alias_get(&callsite.aliases, head.as_str()) {
        let candidate = joined(alias_target.as_str(), tail.as_str());
        if let Some(node) = node_by_fqn.get(candidate.as_str()) {
            return Some((node, edge_kind_for_target(node), ALIAS_CONFIDENCE, ResolutionMethod::Heuristic));
        }
    }
    match node_by_fqn.get(token) {
        Some(node) => Some((node, edge_kind_for_target(node), ALIAS_CONFIDENCE, ResolutionMethod::Heuristic)),
        None => None,
    }
}

fn starts_with_text_prefix(s: &str, prefix: &str) -> (r: bool)
    ensures
        r == starts_with(s@, prefix@),
{
    crate::text::starts_with_text(s, prefix)
}

// ---------------------------------------------------------------- the project

/// One source file of a project: its normalized path relative to the root,
/// its module's dotted name, and its text.
pub struct SourceFile {
    pub relative_path: String,
    pub module_fqn: String,
    pub source: String,
}

/// What scanning a project yields.
pub struct ParsedProject {
    pub nodes: Vec<Node>,
    pub edge_drafts: Vec<EdgeDraft>,
    pub unresolved_calls: Vec<(NodeId, Vec<String>)>,
    pub scanned_files: usize,
    pub warnings: Vec<String>,
}

pub struct ParsedProjectV {
    pub nodes: Seq<NodeV>,
    pub edge_drafts: Seq<EdgeV>,
    pub unresolved_calls: Seq<(Seq<char>, Seq<Seq<char>>)>,
    pub scanned_files: int,
    pub warnings: Seq<Seq<char>>,
}

pub open spec fn drafts_view(v: Vec<EdgeDraft>) -> Seq<EdgeV> {
    v@.map_values(|d: EdgeDraft| draft_edge(d))
}

pub open spec fn groups_view(v: Vec<(NodeId, Vec<String>)>) -> Seq<(Seq<char>, Seq<Seq<char>>)> {
    v@.map_values(|g: (NodeId, Vec<String>)| (g.0@, texts_view(g.1)))
}

impl View for ParsedProject {
    type V = ParsedProjectV;

    open spec fn view(&self) -> ParsedProjectV {
        ParsedProjectV {
            nodes: crate::scanner::nodes_view(self.nodes),
            edge_drafts: drafts_view(self.edge_drafts),
            unresolved_calls: groups_view(self.unresolved_calls),
            scanned_files: self.scanned_files as int,
            warnings: texts_view(self.warnings),
        }
    }
}

pub open spec fn file_scan_of(f: SourceFile, version: u64) -> ParsedFileV {
    parsed_file_of(ctx_of(lines_of(f.source@), f.relative_path@, f.module_fqn@, version))
}

/// The nodes of all files, file by file.
pub open spec fn all_nodes_of(parsed: Seq<ParsedFileV>) -> Seq<NodeV>
    decreases parsed.len(),
{
    if parsed.len() == 0 {
        Seq::empty()
    } else {
        all_nodes_of(parsed.drop_last()) + parsed.last().nodes
    }
}

pub open spec fn all_callsites_of(parsed: Seq<ParsedFileV>) -> Seq<CallsiteV>
    decreases parsed.len(),
{
    if parsed.len() == 0 {
        Seq::empty()
    } else {
        all_callsites_of(parsed.drop_last()) + parsed.last().callsites
    }
}

pub open spec fn all_imports_of(parsed: Seq<ParsedFileV>) -> Seq<ImportV>
    decreases parsed.len(),
{
    if parsed.len() == 0 {
        Seq::empty()
    } else {
        all_imports_of(parsed.drop_last()) + parsed.last().imports
    }
}

/// The short-name index: each name with the ids of the nodes so named.
pub open spec fn name_index(nodes: Seq<NodeV>) -> Map<Seq<char>, Seq<Seq<char>>> {
    Map::new(|k: Seq<char>| ids_named(nodes, k).len() > 0, |k: Seq<char>| ids_named(nodes, k))
}

/// Whether an edge with this source, target and kind is already drafted.
pub open spec fn has_draft_key(drafts: Seq<EdgeV>, source: Seq<char>, target: Seq<char>, kind: EdgeKind) -> bool {
    exists|i: int|
        0 <= i < drafts.len() && #[trigger] drafts[i].source == source && drafts[i].target == target
            && drafts[i].kind == kind
}

/// Drafts an edge unless one with its source, target and kind exists.
pub open spec fn add_draft(drafts: Seq<EdgeV>, e: EdgeV) -> Seq<EdgeV> {
    if has_draft_key(drafts, e.source, e.target, e.kind) {
        drafts
    } else {
        drafts.push(e)
    }
}

/// The import edges: static, of full confidence.
pub open spec fn link_imports(imports: Seq<ImportV>, fqns: Map<Seq<char>, NodeV>, version: u64) -> Seq<EdgeV>
    decreases imports.len(),
{
    if imports.len() == 0 {
        Seq::empty()
    } else {
        let prev = link_imports(imports.drop_last(), fqns, version);
        match import_target_of(imports.last().target_fqn, fqns) {
            Some(t) => add_draft(
                prev,
                EdgeV {
                    source: imports.last().source_module,
                    target: t.id,
                    kind: EdgeKind::Imports,
                    confidence: CONFIDENCE_SCALE as int,
                    resolution: ResolutionMethod::Static,
                    introduced_at_version: version,
                },
            ),
            None => prev,
        }
    }
}

/// The index of the group of `id`, if any.
pub open spec fn group_index(groups: Seq<(Seq<char>, Seq<Seq<char>>)>, id: Seq<char>) -> Option<int>
    decreases groups.len(),
{
    if groups.len() == 0 {
        None
    } else {
        match group_index(groups.drop_last(), id) {
            Some(i) => Some(i),
            None => if groups.last().0 == id {
                Some(groups.len() - 1)
            } else {
                None
            },
        }
    }
}

/// Adds an unresolved call to the group of its source.
pub open spec fn add_unresolved(groups: Seq<(Seq<char>, Seq<Seq<char>>)>, id: Seq<char>, token: Seq<char>) -> Seq<(Seq<char>, Seq<Seq<char>>)> {
    match group_index(groups, id) {
        Some(i) => groups.update(i, (id, groups[i].1.push(token))),
        None => groups.push((id, seq![token])),
    }
}

pub struct LinkV {
    pub drafts: Seq<EdgeV>,
    pub unresolved: Seq<(Seq<char>, Seq<Seq<char>>)>,
}

/// The call edges after the import edges, and the calls that stay
/// unresolved, by source, as their last dotted segment.
pub open spec fn link_calls(
    start: Seq<EdgeV>,
    calls: Seq<CallsiteV>,
    fqns: Map<Seq<char>, NodeV>,
    ids: Map<Seq<char>, NodeV>,
    names: Map<Seq<char>, Seq<Seq<char>>>,
    version: u64,
) -> LinkV
    decreases calls.len(),
{
    if calls.len() == 0 {
        LinkV { drafts: start, unresolved: Seq::empty() }
    } else {
        let prev = link_calls(start, calls.drop_last(), fqns, ids, names, version);
        let c = calls.last();
        match callsite_resolution_of(c, fqns, ids, names) {
            Some((t, kind, confidence, resolution)) => LinkV {
                drafts: add_draft(
                    prev.drafts,
                    EdgeV {
                        source: c.source,
                        target: t.id,
                        kind,
                        confidence,
                        resolution,
                        introduced_at_version: version,
                    },
                ),
                ..prev
            },
            None => LinkV {
                unresolved: add_unresolved(prev.unresolved, c.source, after_last(c.token, '.')),
                ..prev
            },
        }
    }
}

/// The warnings for files that yield no node.
pub open spec fn warnings_of(files: Seq<SourceFile>, parsed: Seq<ParsedFileV>) -> Seq<Seq<char>>
    decreases files.len(),
{
    if files.len() == 0 || parsed.len() != files.len() {
        Seq::empty()
    } else {
        let prev = warnings_of(files.drop_last(), parsed.drop_last());
        if parsed.last().nodes.len() == 0 {
            prev.push("No addressable nodes were extracted from "@ + files.last().relative_path@)
        } else {
            prev
        }
    }
}

/// What scanning a project's files yields: every file scanned, imports and
/// calls resolved against all nodes, edges deduplicated by source, target
/// and kind.
pub open spec fn project_of(files: Seq<SourceFile>, version: u64) -> ParsedProjectV {
    let parsed = files.map_values(|f: SourceFile| file_scan_of(f, version));
    let nodes = all_nodes_of(parsed);
    let fqns = fqn_index(nodes);
    let imports = link_imports(all_imports_of(parsed), fqns, version);
    let calls = link_calls(imports, all_callsites_of(parsed), fqns, id_index(nodes), name_index(nodes), version);
    ParsedProjectV {
        nodes,
        edge_drafts: calls.drafts,
        unresolved_calls: calls.unresolved,
        scanned_files: files.len() as int,
        warnings: warnings_of(files, parsed),
    }
}

fn has_draft(drafts: &Vec<EdgeDraft>, source: &NodeId, target: &NodeId, kind: EdgeKind) -> (r: bool)
    ensures
        r == has_draft_key(drafts_view(*drafts), source@, target@, kind),
{
    let ghost dv = drafts_view(*drafts);
    let mut i: usize = 0;
    while i < drafts.len()
        invariant
            i <= drafts@.len(),
            dv == drafts_view(*drafts),
            forall|j: int|
                0 <= j < i ==> !(#[trigger] dv[j].source == source@ && dv[j].target == target@
                    && dv[j].kind == kind),
        decreases drafts@.len() - i,
    {
        if drafts[i].source.same_as(source) && drafts[i].target.same_as(target) && drafts[i].kind == kind {
            assert(dv[i as int].source == source@);
            return true;
        }
        i = i + 1;
    }
    false
}

fn add_draft_exec(drafts: &mut Vec<EdgeDraft>, draft: EdgeDraft)
    ensures
        drafts_view(*final(drafts)) == add_draft(drafts_view(*old(drafts)), draft_edge(draft)),
{
    if !has_draft(drafts, &draft.source, &draft.target, draft.kind) {
        let ghost prev = drafts@;
        drafts.push(draft);
        proof {
            crate::text::lemma_map_push(prev, draft, |d: EdgeDraft| draft_edge(d));
        }
    }
}

fn add_unresolved_exec(groups: &mut Vec<(NodeId, Vec<String>)>, id: &NodeId, token: String)
    ensures
        groups_view(*final(groups)) == add_unresolved(groups_view(*old(groups)), id@, token@),
{
    let ghost g = groups_view(*groups);
    let mut i: usize = 0;
    assert(g.take(0) =~= Seq::<(Seq<char>, Seq<Seq<char>>)>::empty());
    while i < groups.len()
        invariant
            i <= groups@.len(),
            g == groups_view(*groups),
            groups == old(groups),
            group_index(g.take(i as int), id@) is None,
        decreases groups@.len() - i,
    {
        assert(g.take(i + 1).drop_last() =~= g.take(i as int));
        if groups[i].0.same_as(id) {
            proof {
                lemma_group_index_prefix(g, id@, i as int);
            }
            let mut tokens = clone_texts(&groups[i].1);
            let ghost prev = tokens@;
            tokens.push(token);
            proof {
                crate::text::lemma_map_push(prev, token, |t: String| t@);
            }
            let key = groups[i].0.clone();
            groups.set(i, (key, tokens));
            assert(groups_view(*groups) =~= add_unresolved(g, id@, token@));
            return;
        }
        i = i + 1;
    }
    assert(g.take(groups@.len() as int) =~= g);
    let mut tokens: Vec<String> = Vec::new();
    tokens.push(token);
    assert(texts_view(tokens) =~= seq![token@]);
    let ghost prev = groups@;
    let entry = (id.clone(), tokens);
    groups.push(entry);
    proof {
        crate::text::lemma_map_push(prev, entry, |g: (NodeId, Vec<String>)| (g.0@, texts_view(g.1)));
    }
}

proof fn lemma_group_index_prefix(g: Seq<(Seq<char>, Seq<Seq<char>>)>, id: Seq<char>, i: int)
    requires
        0 <= i < g.len(),
        group_index(g.take(i), id) is None,
        g[i].0 == id,
    ensures
        group_index(g, id) == Some(i),
    decreases g.len() - i,
{
    assert(g.take(i + 1).drop_last() =~= g.take(i));
    assert(group_index(g.take(i + 1), id) == Some(i));
    if i + 1 < g.len() {
        lemma_group_index_extend(g, id, i + 1, i);
    } else {
        assert(g.take(i + 1) =~= g);
    }
}

proof fn lemma_group_index_extend(g: Seq<(Seq<char>, Seq<Seq<char>>)>, id: Seq<char>, k: int, i: int)
    requires
        0 <= k <= g.len(),
        group_index(g.take(k), id) == Some(i),
    ensures
        group_index(g, id) == Some(i),
    decreases g.len() - k,
{
    if k < g.len() {
        assert(g.take(k + 1).drop_last() =~= g.take(k));
        lemma_group_index_extend(g, id, k + 1, i);
    } else {
        assert(g.take(k) =~= g);
    }
}

fn clone_texts(v: &Vec<String>) -> (r: Vec<String>)
    ensures
        texts_view(r) == texts_view(*v),
{
    let mut r: Vec<String> = Vec::new();
    let mut i: usize = 0;
    while i < v.len()
        invariant
            i <= v@.len(),
            texts_view(r) == texts_view(*v).take(i as int),
        decreases v@.len() - i,
    {
        let ghost prev = r@;
        let t = v[i].clone();
        r.push(t);
        proof {
            crate::text::lemma_map_push(prev, t, |x: String| x@);
            assert(texts_view(*v).take(i + 1) =~= texts_view(*v).take(i as int).push(v@[i as int]@));
        }
        i = i + 1;
    }
    assert(texts_view(*v).take(v@.len() as int) =~= texts_view(*v));
    r
}

/// Scans the files of a project and links them: nodes of all files in
/// order, import and call edges resolved against them and drafted once per
/// source, target and kind, and the calls that stay unresolved.
pub fn scan_python_sources(files: &Vec<SourceFile>, version: GraphVersion) -> (r: ParsedProject)
    requires
        forall|i: int| 0 <= i < files@.len() ==> lines_of(#[trigger] files@[i].source@).len() < u32::MAX,
    ensures
        r@ == project_of(files@, version@),
{
    let ghost parsed = files@.map_values(|f: SourceFile| file_scan_of(f, version@));
    let mut all_nodes: Vec<Node> = Vec::new();
    let mut all_callsites: Vec<CallsiteRecord> = Vec::new();
    let mut all_imports: Vec<ImportRecord> = Vec::new();
    let mut warnings: Vec<String> = Vec::new();
    let mut i: usize = 0;
    while i < files.len()
        invariant
            i <= files@.len(),
            parsed == files@.map_values(|f: SourceFile| file_scan_of(f, version@)),
            forall|j: int| 0 <= j < files@.len() ==> lines_of(#[trigger] files@[j].source@).len() < u32::MAX,
            crate::scanner::nodes_view(all_nodes) == all_nodes_of(parsed.take(i as int)),
            crate::scanner::callsites_view(all_callsites) == all_callsites_of(parsed.take(i as int)),
            crate::scanner::imports_view(all_imports) == all_imports_of(parsed.take(i as int)),
            texts_view(warnings) == warnings_of(files@.take(i as int), parsed.take(i as int)),
        decreases files@.len() - i,
    {
        let file = &files[i];
        let mut scanned = parse_python_file(
            file.relative_path.as_str(),
            file.module_fqn.as_str(),
            file.source.as_str(),
            version,
        );
        proof {
            assert(parsed.take(i + 1).drop_last() =~= parsed.take(i as int));
            assert(files@.take(i + 1).drop_last() =~= files@.take(i as int));
            assert(parsed[i as int] == scanned@);
        }
        if scanned.nodes.len() == 0 {
            let mut warning = String::from_str("No addressable nodes were extracted from ");
            warning.append(file.relative_path.as_str());
            let ghost prev = warnings@;
            warnings.push(warning);
            proof {
                crate::text::lemma_map_push(prev, warning, |x: String| x@);
            }
        }
        let ghost n0 = all_nodes@;
        let ghost c0 = all_callsites@;
        let ghost i0 = all_imports@;
        let ghost sn = scanned.nodes@;
        let ghost sc = scanned.callsites@;
        let ghost si = scanned.import_records@;
        all_nodes.append(&mut scanned.nodes);
        all_callsites.append(&mut scanned.callsites);
        all_imports.append(&mut scanned.import_records);
        proof {
            crate::text::lemma_map_concat(n0, sn, |n: Node| n@);
            crate::text::lemma_map_concat(c0, sc, |c: CallsiteRecord| c@);
            crate::text::lemma_map_concat(i0, si, |c: ImportRecord| c@);
        }
        i = i + 1;
    }
    assert(parsed.take(files@.len() as int) =~= parsed);
    assert(files@.take(files@.len() as int) =~= files@);
    let ghost nodes = crate::scanner::nodes_view(all_nodes);

    // indexes
    let mut node_by_fqn: StringHashMap<Node> = StringHashMap::new();
    let mut node_by_id: StringHashMap<Node> = StringHashMap::new();
    let mut short_name_index: StringHashMap<Vec<NodeId>> = StringHashMap::new();
    let mut k: usize = 0;
    assert(node_map_view(node_by_fqn) =~= fqn_index(nodes.take(0)));
    assert(node_map_view(node_by_id) =~= id_index(nodes.take(0)));
    assert(name_map_view(short_name_index) =~= name_index(nodes.take(0)));
    while k < all_nodes.len()
        invariant
            k <= all_nodes@.len(),
            nodes == crate::scanner::nodes_view(all_nodes),
            node_map_view(node_by_fqn) == fqn_index(nodes.take(k as int)),
            node_map_view(node_by_id) == id_index(nodes.take(k as int)),
            name_map_view(short_name_index) == name_index(nodes.take(k as int)),
        decreases all_nodes@.len() - k,
    {
        let node = &all_nodes[k];
        let ghost prefix = nodes.take(k as int);
        proof {
            assert(nodes.take(k + 1).drop_last() =~= prefix);
            assert(nodes.take(k + 1) =~= prefix.push(node@));
        }
        node_by_fqn.insert(node.fqn.clone(), node.clone());
        node_by_id.insert(node.id.to_text(), node.clone());
        let ghost old_names = name_map_view(short_name_index);
        let mut ids: Vec<NodeId> = match short_name_index.get(node.name.as_str()) {
            Some(existing) => {
                let copy = clone_ids(existing);
                assert(old_names.contains_key(node@.name));
                assert(old_names[node@.name] == existing@.map_values(|id: NodeId| id@));
                copy
            },
            None => {
                let empty: Vec<NodeId> = Vec::new();
                assert(!old_names.contains_key(node@.name));
                assert(ids_named(prefix, node@.name) =~= Seq::<Seq<char>>::empty());
                assert(empty@.map_values(|id: NodeId| id@) =~= Seq::<Seq<char>>::empty());
                empty
            },
        };
        assert(ids@.map_values(|id: NodeId| id@) == ids_named(prefix, node@.name));
        let ghost before_ids = ids@;
        ids.push(node.id.clone());
        proof {
            crate::text::lemma_map_push(before_ids, node.id, |id: NodeId| id@);
        }
        let ghost new_val = ids@.map_values(|id: NodeId| id@);
        assert(new_val == ids_named(prefix, node@.name).push(node@.id));
        short_name_index.insert(node.name.clone(), ids);
        assert(name_map_view(short_name_index) =~= old_names.insert(node@.name, new_val));
        k = k + 1;
        proof {
            assert(node_map_view(node_by_fqn) =~= fqn_index(nodes.take(k as int)));
            assert(node_map_view(node_by_id) =~= id_index(nodes.take(k as int)));
            assert forall|key: Seq<char>| true implies ids_named(nodes.take(k as int), key) == if key == node@.name {
                ids_named(prefix, key).push(node@.id)
            } else {
                ids_named(prefix, key)
            } by {
                crate::parser::lemma_filter_map_push(prefix, node@, |n: NodeV| if n.name == key { Some(n.id) } else { None });
            }
            assert(name_map_view(short_name_index) =~= name_index(nodes.take(k as int)));
        }
    }
    assert(nodes.take(all_nodes@.len() as int) =~= nodes);

    // import edges
    let ghost imports = crate::scanner::imports_view(all_imports);
    let ghost fqns = fqn_index(nodes);
    let mut drafts: Vec<EdgeDraft> = Vec::new();
    let mut m: usize = 0;
    assert(drafts_view(drafts) =~= link_imports(imports.take(0), fqns, version@));
    while m < all_imports.len()
        invariant
            m <= all_imports@.len(),
            imports == crate::scanner::imports_view(all_imports),
            fqns == fqn_index(nodes),
            node_map_view(node_by_fqn) == fqns,
            drafts_view(drafts) == link_imports(imports.take(m as int), fqns, version@),
        decreases all_imports@.len() - m,
    {
        let record = &all_imports[m];
        proof {
            assert(imports.take(m + 1).drop_last() =~= imports.take(m as int));
        }
        if let Some(target) = resolve_import_target(record.target_fqn.as_str(), &node_by_fqn) {
            let draft = EdgeDraft {
                source: record.source_module.clone(),
                target: target.id.clone(),
                kind: EdgeKind::Imports,
                confidence: CONFIDENCE_SCALE,
                resolution: ResolutionMethod::Static,
                introduced_at_version: version,
            };
            add_draft_exec(&mut drafts, draft);
        }
        m = m + 1;
    }
    assert(imports.take(all_imports@.len() as int) =~= imports);

    // call edges and unresolved calls
    let ghost calls = crate::scanner::callsites_view(all_callsites);
    let ghost start = drafts_view(drafts);
    let mut unresolved: Vec<(NodeId, Vec<String>)> = Vec::new();
    let mut c: usize = 0;
    assert(groups_view(unresolved) =~= Seq::<(Seq<char>, Seq<Seq<char>>)>::empty());
    assert(calls.take(0) =~= Seq::<CallsiteV>::empty());
    while c < all_callsites.len()
        invariant
            c <= all_callsites@.len(),
            calls == crate::scanner::callsites_view(all_callsites),
            fqns == fqn_index(nodes),
            node_map_view(node_by_fqn) == fqns,
            node_map_view(node_by_id) == id_index(nodes),
            name_map_view(short_name_index) == name_index(nodes),
            (LinkV { drafts: drafts_view(drafts), unresolved: groups_view(unresolved) }) == link_calls(
                start,
                calls.take(c as int),
                fqns,
                id_index(nodes),
                name_index(nodes),
                version@,
            ),
        decreases all_callsites@.len() - c,
    {
        let callsite = &all_callsites[c];
        proof {
            assert(calls.take(c + 1).drop_last() =~= calls.take(c as int));
        }
        match resolve_callsite(callsite, &node_by_fqn, &node_by_id, &short_name_index) {
            Some((target, kind, confidence, resolution)) => {
                let draft = EdgeDraft {
                    source: callsite.source.clone(),
                    target: target.id.clone(),
                    kind,
                    confidence,
                    resolution,
                    introduced_at_version: version,
                };
                add_draft_exec(&mut drafts, draft);
            },
            None => {
                let token = short_token(callsite.token.as_str());
                add_unresolved_exec(&mut unresolved, &callsite.source, token);
            },
        }
        c = c + 1;
    }
    assert(calls.take(all_callsites@.len() as int) =~= calls);
    ParsedProject {
        nodes: all_nodes,
        edge_drafts: drafts,
        unresolved_calls: unresolved,
        scanned_files: files.len(),
        warnings,
    }
}

fn clone_ids(v: &Vec<NodeId>) -> (r: Vec<NodeId>)
    ensures
        r@.map_values(|id: NodeId| id@) == v@.map_values(|id: NodeId| id@),
{
    let mut r: Vec<NodeId> = Vec::new();
    let mut i: usize = 0;
    while i < v.len()
        invariant
            i <= v@.len(),
            r@ == v@.take(i as int),
        decreases v@.len() - i,
    {
        r.push(v[i].clone());
        i = i + 1;
        assert(r@ =~= v@.take(i as int));
    }
    assert(v@.take(v@.len() as int) =~= v@);
    r
}


// ---------------------------------------------------------------- what linking keeps

/// A node as scanning a project at `version` emits it.
pub open spec fn is_project_node(n: NodeV, version: u64) -> bool {
    &&& node_id_of(n.language, n.fqn) == n.id
    &&& n.language == "python"@
    &&& n.introduced_at_version == version
}

/// The confidence and resolution that linking gives an edge: exact for
/// imports, fixed values for the ways a call resolves.
pub open spec fn is_link_confidence(confidence: int, resolution: ResolutionMethod) -> bool {
    ||| resolution is Static && confidence == CONFIDENCE_SCALE as int
    ||| resolution is TypeInferred && confidence == TYPE_INFERRED_CONFIDENCE as int
    ||| resolution is Heuristic && (confidence == ALIAS_CONFIDENCE as int || confidence
        == SHORT_NAME_CONFIDENCE as int)
}

/// A draft that joins two nodes of the project with a linking confidence.
pub open spec fn is_project_draft(d: EdgeV, nodes: Seq<NodeV>, version: u64) -> bool {
    &&& has_node_id(nodes, d.source)
    &&& has_node_id(nodes, d.target)
    &&& is_link_confidence(d.confidence, d.resolution)
    &&& d.introduced_at_version == version
    &&& d.confidence == SHORT_NAME_CONFIDENCE as int ==> is_uniquely_named(nodes, d.target)
}

/// Some node has this id, and no other node shares its short name.
pub open spec fn is_uniquely_named(nodes: Seq<NodeV>, id: Seq<char>) -> bool {
    exists|i: int|
        0 <= i < nodes.len() && #[trigger] nodes[i].id == id && forall|j: int|
            0 <= j < nodes.len() && #[trigger] nodes[j].name == nodes[i].name ==> j == i
}

proof fn lemma_ids_named_prefix(nodes: Seq<NodeV>, name: Seq<char>)
    requires
        nodes.len() > 0,
    ensures
        ids_named(nodes, name) == if nodes.last().name == name {
            ids_named(nodes.drop_last(), name).push(nodes.last().id)
        } else {
            ids_named(nodes.drop_last(), name)
        },
{
}

proof fn lemma_ids_named_some(nodes: Seq<NodeV>, name: Seq<char>, i: int)
    requires
        0 <= i < nodes.len(),
        nodes[i].name == name,
    ensures
        ids_named(nodes, name).len() >= 1,
    decreases nodes.len(),
{
    lemma_ids_named_prefix(nodes, name);
    if i < nodes.len() - 1 {
        let prev = nodes.drop_last();
        assert(prev[i] == nodes[i]);
        lemma_ids_named_some(prev, name, i);
    }
}

pub proof fn lemma_ids_named_two(nodes: Seq<NodeV>, name: Seq<char>, i: int, j: int)
    requires
        0 <= i < j < nodes.len(),
        nodes[i].name == name,
        nodes[j].name == name,
    ensures
        ids_named(nodes, name).len() >= 2,
    decreases nodes.len(),
{
    lemma_ids_named_prefix(nodes, name);
    let prev = nodes.drop_last();
    assert(prev[i] == nodes[i]);
    if j < nodes.len() - 1 {
        assert(prev[j] == nodes[j]);
        lemma_ids_named_two(prev, name, i, j);
    } else {
        lemma_ids_named_some(prev, name, i);
    }
}

proof fn lemma_ids_named_one(nodes: Seq<NodeV>, name: Seq<char>)
    requires
        ids_named(nodes, name).len() == 1,
    ensures
        exists|i: int|
            0 <= i < nodes.len() && #[trigger] nodes[i].id == ids_named(nodes, name)[0]
                && nodes[i].name == name,
    decreases nodes.len(),
{
    lemma_ids_named_prefix(nodes, name);
    let prev = nodes.drop_last();
    let k = nodes.len() - 1;
    if nodes.last().name == name {
        assert(ids_named(prev, name).len() == 0);
        assert(nodes[k].id == ids_named(nodes, name)[0]);
    } else {
        lemma_ids_named_one(prev, name);
        let i = choose|i: int|
            0 <= i < prev.len() && #[trigger] prev[i].id == ids_named(prev, name)[0] && prev[i].name == name;
        assert(nodes[i] == prev[i]);
    }
}

/// A name that exactly one node carries: that node's id is the one the
/// short-name index lists.
proof fn lemma_unique_short_name(nodes: Seq<NodeV>, name: Seq<char>)
    requires
        ids_named(nodes, name).len() == 1,
    ensures
        is_uniquely_named(nodes, ids_named(nodes, name)[0]),
{
    lemma_ids_named_one(nodes, name);
    let i = choose|i: int|
        0 <= i < nodes.len() && #[trigger] nodes[i].id == ids_named(nodes, name)[0] && nodes[i].name == name;
    assert forall|j: int| 0 <= j < nodes.len() && #[trigger] nodes[j].name == nodes[i].name implies j == i by {
        if j < i {
            lemma_ids_named_two(nodes, name, j, i);
        } else if j > i {
            lemma_ids_named_two(nodes, name, i, j);
        }
    }
}

proof fn lemma_id_index_keys(nodes: Seq<NodeV>)
    ensures
        forall|k: Seq<char>| #[trigger] id_index(nodes).contains_key(k) ==> id_index(nodes)[k].id == k,
    decreases nodes.len(),
{
    if nodes.len() > 0 {
        lemma_id_index_keys(nodes.drop_last());
    }
}

/// No two drafts share source, target and kind.
pub open spec fn drafts_unique(drafts: Seq<EdgeV>) -> bool {
    forall|i: int, j: int|
        0 <= i < j < drafts.len() ==> !(#[trigger] drafts[i].source == #[trigger] drafts[j].source
            && drafts[i].target == drafts[j].target && drafts[i].kind == drafts[j].kind)
}

pub open spec fn drafts_ok(drafts: Seq<EdgeV>, nodes: Seq<NodeV>, version: u64) -> bool {
    &&& drafts_unique(drafts)
    &&& forall|i: int| 0 <= i < drafts.len() ==> is_project_draft(#[trigger] drafts[i], nodes, version)
}

proof fn lemma_has_node_id_concat(a: Seq<NodeV>, b: Seq<NodeV>, id: Seq<char>)
    ensures
        has_node_id(a, id) ==> has_node_id(a + b, id),
        has_node_id(b, id) ==> has_node_id(a + b, id),
{
    if has_node_id(a, id) {
        let j = choose|j: int| 0 <= j < a.len() && #[trigger] a[j].id == id;
        assert((a + b)[j] == a[j]);
    }
    if has_node_id(b, id) {
        let j = choose|j: int| 0 <= j < b.len() && #[trigger] b[j].id == id;
        assert((a + b)[a.len() + j] == b[j]);
    }
}

/// What each scanned file gives linking: project nodes, call sites and
/// imports that come from its own nodes.
pub open spec fn file_ok(f: ParsedFileV, version: u64) -> bool {
    &&& f.nodes.len() >= 1
    &&& forall|i: int| 0 <= i < f.nodes.len() ==> is_project_node(#[trigger] f.nodes[i], version)
    &&& forall|i: int| 0 <= i < f.callsites.len() ==> has_node_id(f.nodes, (#[trigger] f.callsites[i]).source)
    &&& forall|i: int| 0 <= i < f.imports.len() ==> has_node_id(f.nodes, (#[trigger] f.imports[i]).source_module)
}

proof fn lemma_file_scan_ok(f: SourceFile, version: u64)
    ensures
        file_ok(file_scan_of(f, version), version),
{
    let ctx = ctx_of(lines_of(f.source@), f.relative_path@, f.module_fqn@, version);
    lemma_parsed_file_invariant(ctx);
    let pf = file_scan_of(f, version);
    let st = ScanV { nodes: pf.nodes, callsites: pf.callsites, imports: pf.imports, aliases: Seq::empty(), open: Seq::empty() };
    assert(scan_invariant(ctx, st));
    assert forall|i: int| 0 <= i < pf.nodes.len() implies is_project_node(#[trigger] pf.nodes[i], version) by {
        assert(st.nodes[i] == pf.nodes[i]);
        assert(is_scanned_node(ctx, st.nodes[i]));
    }
    assert forall|i: int| 0 <= i < pf.imports.len() implies has_node_id(pf.nodes, (#[trigger] pf.imports[i]).source_module) by {
        assert(st.imports[i] == pf.imports[i]);
        assert(st.imports[i].source_module == module_id_of(ctx));
        assert(pf.nodes[0].id == module_id_of(ctx));
    }
    assert forall|i: int| 0 <= i < pf.callsites.len() implies has_node_id(pf.nodes, (#[trigger] pf.callsites[i]).source) by {
        assert(st.callsites[i] == pf.callsites[i]);
    }
}

proof fn lemma_no_warnings(files: Seq<SourceFile>, parsed: Seq<ParsedFileV>)
    requires
        forall|k: int| 0 <= k < parsed.len() ==> (#[trigger] parsed[k]).nodes.len() >= 1,
    ensures
        warnings_of(files, parsed).len() == 0,
    decreases files.len(),
{
    if files.len() > 0 && parsed.len() == files.len() {
        let prev = parsed.drop_last();
        assert forall|k: int| 0 <= k < prev.len() implies (#[trigger] prev[k]).nodes.len() >= 1 by {
            assert(prev[k] == parsed[k]);
        }
        lemma_no_warnings(files.drop_last(), prev);
        assert(parsed[parsed.len() - 1].nodes.len() >= 1);
    }
}

/// The nodes, call sites and imports of all files, when each file is fine.
pub open spec fn all_ok(parsed: Seq<ParsedFileV>, version: u64) -> bool {
    let nodes = all_nodes_of(parsed);
    &&& forall|i: int| 0 <= i < nodes.len() ==> is_project_node(#[trigger] nodes[i], version)
    &&& forall|i: int|
        0 <= i < all_callsites_of(parsed).len() ==> has_node_id(nodes, (#[trigger] all_callsites_of(parsed)[i]).source)
    &&& forall|i: int|
        0 <= i < all_imports_of(parsed).len() ==> has_node_id(
            nodes,
            (#[trigger] all_imports_of(parsed)[i]).source_module,
        )
}

proof fn lemma_all_ok(parsed: Seq<ParsedFileV>, version: u64)
    requires
        forall|k: int| 0 <= k < parsed.len() ==> file_ok(#[trigger] parsed[k], version),
    ensures
        all_ok(parsed, version),
    decreases parsed.len(),
{
    if parsed.len() > 0 {
        let prev = parsed.drop_last();
        assert forall|k: int| 0 <= k < prev.len() implies file_ok(#[trigger] prev[k], version) by {
            assert(prev[k] == parsed[k]);
        }
        lemma_all_ok(prev, version);
        let last = parsed.last();
        assert(file_ok(parsed[parsed.len() - 1], version));
        let a = all_nodes_of(prev);
        let nodes = all_nodes_of(parsed);
        assert(nodes == a + last.nodes);
        assert forall|i: int| 0 <= i < nodes.len() implies is_project_node(#[trigger] nodes[i], version) by {
            if i < a.len() {
                assert(nodes[i] == a[i]);
            } else {
                assert(nodes[i] == last.nodes[i - a.len()]);
            }
        }
        let ca = all_callsites_of(prev);
        let cs = all_callsites_of(parsed);
        assert(cs == ca + last.callsites);
        assert forall|i: int| 0 <= i < cs.len() implies has_node_id(nodes, (#[trigger] cs[i]).source) by {
            if i < ca.len() {
                assert(cs[i] == ca[i]);
                lemma_has_node_id_concat(a, last.nodes, ca[i].source);
            } else {
                assert(cs[i] == last.callsites[i - ca.len()]);
                lemma_has_node_id_concat(a, last.nodes, cs[i].source);
            }
        }
        let ia = all_imports_of(prev);
        let is = all_imports_of(parsed);
        assert(is == ia + last.imports);
        assert forall|i: int| 0 <= i < is.len() implies has_node_id(nodes, (#[trigger] is[i]).source_module) by {
            if i < ia.len() {
                assert(is[i] == ia[i]);
                lemma_has_node_id_concat(a, last.nodes, ia[i].source_module);
            } else {
                assert(is[i] == last.imports[i - ia.len()]);
                lemma_has_node_id_concat(a, last.nodes, is[i].source_module);
            }
        }
    }
}

proof fn lemma_fqn_index_values(nodes: Seq<NodeV>)
    ensures
        forall|k: Seq<char>| #[trigger] fqn_index(nodes).contains_key(k) ==> has_node_id(nodes, fqn_index(nodes)[k].id),
    decreases nodes.len(),
{
    if nodes.len() > 0 {
        let prev = nodes.drop_last();
        lemma_fqn_index_values(prev);
        assert forall|k: Seq<char>| #[trigger] fqn_index(nodes).contains_key(k) implies has_node_id(
            nodes,
            fqn_index(nodes)[k].id,
        ) by {
            if k == nodes.last().fqn {
                assert(nodes[nodes.len() - 1].id == fqn_index(nodes)[k].id);
            } else {
                assert(fqn_index(prev).contains_key(k));
                let j = choose|j: int| 0 <= j < prev.len() && #[trigger] prev[j].id == fqn_index(prev)[k].id;
                assert(nodes[j] == prev[j]);
            }
        }
    }
}

proof fn lemma_id_index_values(nodes: Seq<NodeV>)
    ensures
        forall|k: Seq<char>| #[trigger] id_index(nodes).contains_key(k) ==> has_node_id(nodes, id_index(nodes)[k].id),
    decreases nodes.len(),
{
    if nodes.len() > 0 {
        let prev = nodes.drop_last();
        lemma_id_index_values(prev);
        assert forall|k: Seq<char>| #[trigger] id_index(nodes).contains_key(k) implies has_node_id(
            nodes,
            id_index(nodes)[k].id,
        ) by {
            if k == nodes.last().id {
                assert(nodes[nodes.len() - 1].id == id_index(nodes)[k].id);
            } else {
                assert(id_index(prev).contains_key(k));
                let j = choose|j: int| 0 <= j < prev.len() && #[trigger] prev[j].id == id_index(prev)[k].id;
                assert(nodes[j] == prev[j]);
            }
        }
    }
}

proof fn lemma_add_draft_ok(drafts: Seq<EdgeV>, e: EdgeV, nodes: Seq<NodeV>, version: u64)
    requires
        drafts_ok(drafts, nodes, version),
        is_project_draft(e, nodes, version),
    ensures
        drafts_ok(add_draft(drafts, e), nodes, version),
{
    if !has_draft_key(drafts, e.source, e.target, e.kind) {
        let after = drafts.push(e);
        assert forall|i: int, j: int| 0 <= i < j < after.len() implies !(#[trigger] after[i].source
            == #[trigger] after[j].source && after[i].target == after[j].target && after[i].kind
            == after[j].kind) by {
            if j == drafts.len() {
                assert(after[i] == drafts[i]);
                if after[i].source == e.source && after[i].target == e.target && after[i].kind == e.kind {
                    assert(has_draft_key(drafts, e.source, e.target, e.kind));
                }
            } else {
                assert(after[i] == drafts[i]);
                assert(after[j] == drafts[j]);
            }
        }
        assert forall|i: int| 0 <= i < after.len() implies is_project_draft(#[trigger] after[i], nodes, version) by {
            if i < drafts.len() {
                assert(after[i] == drafts[i]);
            }
        }
    }
}

proof fn lemma_link_imports_ok(imports: Seq<ImportV>, nodes: Seq<NodeV>, version: u64)
    requires
        forall|i: int| 0 <= i < imports.len() ==> has_node_id(nodes, (#[trigger] imports[i]).source_module),
    ensures
        drafts_ok(link_imports(imports, fqn_index(nodes), version), nodes, version),
    decreases imports.len(),
{
    if imports.len() > 0 {
        let prev = imports.drop_last();
        assert forall|i: int| 0 <= i < prev.len() implies has_node_id(nodes, (#[trigger] prev[i]).source_module) by {
            assert(prev[i] == imports[i]);
        }
        lemma_link_imports_ok(prev, nodes, version);
        lemma_fqn_index_values(nodes);
        let fqns = fqn_index(nodes);
        let last = imports[imports.len() - 1];
        match import_target_of(last.target_fqn, fqns) {
            Some(t) => {
                let e = EdgeV {
                    source: last.source_module,
                    target: t.id,
                    kind: EdgeKind::Imports,
                    confidence: CONFIDENCE_SCALE as int,
                    resolution: ResolutionMethod::Static,
                    introduced_at_version: version,
                };
                if fqns.contains_key(last.target_fqn) {
                    assert(has_node_id(nodes, fqns[last.target_fqn].id));
                } else {
                    let k = last_index_of(last.target_fqn, '.')->0;
                    assert(has_node_id(nodes, fqns[last.target_fqn.take(k)].id));
                }
                lemma_add_draft_ok(link_imports(prev, fqns, version), e, nodes, version);
            },
            None => {},
        }
    }
}

/// A call resolves to a node of the project, with a linking confidence; one
/// resolved by its short name resolves to the only node of that name.
pub proof fn lemma_resolution_ok(c: CallsiteV, nodes: Seq<NodeV>, names: Map<Seq<char>, Seq<Seq<char>>>)
    requires
        names == name_index(nodes),
    ensures
        match callsite_resolution_of(c, fqn_index(nodes), id_index(nodes), names) {
            Some((t, kind, confidence, resolution)) => has_node_id(nodes, t.id) && is_link_confidence(
                confidence,
                resolution,
            ) && (confidence == SHORT_NAME_CONFIDENCE as int ==> is_uniquely_named(nodes, t.id)),
            None => true,
        },
{
    lemma_fqn_index_values(nodes);
    lemma_id_index_values(nodes);
    lemma_id_index_keys(nodes);
    match callsite_resolution_of(c, fqn_index(nodes), id_index(nodes), names) {
        Some((t, kind, confidence, resolution)) => {
            if confidence == SHORT_NAME_CONFIDENCE as int {
                let token = c.token;
                assert(names.contains_key(token));
                assert(names[token] == ids_named(nodes, token));
                lemma_unique_short_name(nodes, token);
            }
        },
        None => {},
    }
}

/// Unresolved calls grouped once per calling node, each group non-empty.
pub open spec fn groups_ok(groups: Seq<(Seq<char>, Seq<Seq<char>>)>, nodes: Seq<NodeV>) -> bool {
    &&& forall|i: int, j: int|
        0 <= i < j < groups.len() ==> (#[trigger] groups[i]).0 != (#[trigger] groups[j]).0
    &&& forall|i: int|
        0 <= i < groups.len() ==> has_node_id(nodes, (#[trigger] groups[i]).0) && groups[i].1.len() > 0
}

proof fn lemma_group_index_spec(groups: Seq<(Seq<char>, Seq<Seq<char>>)>, id: Seq<char>)
    ensures
        match group_index(groups, id) {
            Some(i) => 0 <= i < groups.len() && groups[i].0 == id,
            None => forall|i: int| 0 <= i < groups.len() ==> (#[trigger] groups[i]).0 != id,
        },
    decreases groups.len(),
{
    if groups.len() > 0 {
        let prev = groups.drop_last();
        lemma_group_index_spec(prev, id);
        match group_index(prev, id) {
            Some(i) => {
                assert(groups[i] == prev[i]);
            },
            None => {
                assert forall|i: int| 0 <= i < prev.len() implies (#[trigger] groups[i]).0 != id by {
                    assert(groups[i] == prev[i]);
                }
            },
        }
    }
}

proof fn lemma_add_unresolved_ok(
    groups: Seq<(Seq<char>, Seq<Seq<char>>)>,
    id: Seq<char>,
    token: Seq<char>,
    nodes: Seq<NodeV>,
)
    requires
        groups_ok(groups, nodes),
        has_node_id(nodes, id),
    ensures
        groups_ok(add_unresolved(groups, id, token), nodes),
{
    lemma_group_index_spec(groups, id);
    let after = add_unresolved(groups, id, token);
    match group_index(groups, id) {
        Some(k) => {
            assert forall|i: int, j: int| 0 <= i < j < after.len() implies (#[trigger] after[i]).0
                != (#[trigger] after[j]).0 by {
                assert(after[i].0 == groups[i].0);
                assert(after[j].0 == groups[j].0);
                assert(groups[i].0 != groups[j].0);
            }
            assert forall|i: int| 0 <= i < after.len() implies has_node_id(nodes, (#[trigger] after[i]).0)
                && after[i].1.len() > 0 by {
                if i != k {
                    assert(after[i] == groups[i]);
                }
            }
        },
        None => {
            assert forall|i: int, j: int| 0 <= i < j < after.len() implies (#[trigger] after[i]).0
                != (#[trigger] after[j]).0 by {
                assert(after[i] == groups[i]);
                if j < groups.len() {
                    assert(after[j] == groups[j]);
                    assert(groups[i].0 != groups[j].0);
                }
            }
            assert forall|i: int| 0 <= i < after.len() implies has_node_id(nodes, (#[trigger] after[i]).0)
                && after[i].1.len() > 0 by {
                if i < groups.len() {
                    assert(after[i] == groups[i]);
                }
            }
        },
    }
}

proof fn lemma_link_calls_ok(
    start: Seq<EdgeV>,
    calls: Seq<CallsiteV>,
    nodes: Seq<NodeV>,
    names: Map<Seq<char>, Seq<Seq<char>>>,
    version: u64,
)
    requires
        drafts_ok(start, nodes, version),
        names == name_index(nodes),
        forall|i: int| 0 <= i < calls.len() ==> has_node_id(nodes, (#[trigger] calls[i]).source),
    ensures
        drafts_ok(link_calls(start, calls, fqn_index(nodes), id_index(nodes), names, version).drafts, nodes, version),
        groups_ok(link_calls(start, calls, fqn_index(nodes), id_index(nodes), names, version).unresolved, nodes),
    decreases calls.len(),
{
    if calls.len() > 0 {
        let prev = calls.drop_last();
        assert forall|i: int| 0 <= i < prev.len() implies has_node_id(nodes, (#[trigger] prev[i]).source) by {
            assert(prev[i] == calls[i]);
        }
        lemma_link_calls_ok(start, prev, nodes, names, version);
        let c = calls[calls.len() - 1];
        lemma_resolution_ok(c, nodes, names);
        match callsite_resolution_of(c, fqn_index(nodes), id_index(nodes), names) {
            Some((t, kind, confidence, resolution)) => {
                let e = EdgeV {
                    source: c.source,
                    target: t.id,
                    kind,
                    confidence,
                    resolution,
                    introduced_at_version: version,
                };
                lemma_add_draft_ok(
                    link_calls(start, prev, fqn_index(nodes), id_index(nodes), names, version).drafts,
                    e,
                    nodes,
                    version,
                );
            },
            None => {
                lemma_add_unresolved_ok(
                    link_calls(start, prev, fqn_index(nodes), id_index(nodes), names, version).unresolved,
                    c.source,
                    after_last(c.token, '.'),
                    nodes,
                );
            },
        }
    }
}

/// Every node that scanning a project yields is a project node, every
/// edge draft joins two of its nodes with a linking confidence, no two
/// drafts sharing source, target and kind, and the unresolved calls come in
/// one non-empty group per calling node.
pub proof fn lemma_project_fits(files: Seq<SourceFile>, version: u64)
    ensures
        ({
            let p = project_of(files, version);
            &&& forall|i: int| 0 <= i < p.nodes.len() ==> is_project_node(#[trigger] p.nodes[i], version)
            &&& drafts_ok(p.edge_drafts, p.nodes, version)
            &&& groups_ok(p.unresolved_calls, p.nodes)
            &&& p.warnings.len() == 0
        }),
{
    let parsed = files.map_values(|f: SourceFile| file_scan_of(f, version));
    assert forall|k: int| 0 <= k < parsed.len() implies file_ok(#[trigger] parsed[k], version) by {
        lemma_file_scan_ok(files[k], version);
    }
    lemma_all_ok(parsed, version);
    lemma_no_warnings(files, parsed);
    let nodes = all_nodes_of(parsed);
    let start: Seq<EdgeV> = Seq::empty();
    lemma_link_imports_ok(all_imports_of(parsed), nodes, version);
    lemma_link_calls_ok(
        link_imports(all_imports_of(parsed), fqn_index(nodes), version),
        all_callsites_of(parsed),
        nodes,
        name_index(nodes),
        version,
    );
}

} // verus!
