//! Extraction of the nodes, import records and call sites of one Python
//! source file: a line-by-line scan with a stack of open classes and
//! callables, closed by indentation.

use vstd::prelude::*;

use crate::parser::{
    body_hash_of, call_tokens_of, class_name_of, def_signature_of, extract_call_tokens,
    hash_normalized_lines, import_aliases_of, leading_spaces, leading_spaces_of, pairs_view,
    parse_class_name, parse_def_signature, parse_import_aliases, split_lines, lines_of,
    texts_view, is_control_keyword, lemma_call_tokens_in, regex_captures_iter_of, CALL_PATTERN,
};
use crate::schema::{
    node_id_of, text_option_view, GraphVersion, Node, NodeId, NodeKind, NodeKindV, NodeStatus,
    NodeStatusV, NodeV, Signature, SignatureV, SourceLocation,
};
use crate::text::{after_last, after_last_text, starts_with, starts_with_text, trim_start_of, trim_start_text};

verus! {

/// A call made inside a callable, kept for resolution once every file is
/// scanned.
pub struct CallsiteRecord {
    pub source: NodeId,
    pub module_fqn: String,
    pub parent_class_fqn: Option<String>,
    pub token: String,
    pub aliases: Vec<(String, String)>,
}

pub struct CallsiteV {
    pub source: Seq<char>,
    pub module_fqn: Seq<char>,
    pub parent_class_fqn: Option<Seq<char>>,
    pub token: Seq<char>,
    pub aliases: Seq<(Seq<char>, Seq<char>)>,
}

impl View for CallsiteRecord {
    type V = CallsiteV;

    open spec fn view(&self) -> CallsiteV {
        CallsiteV {
            source: self.source@,
            module_fqn: self.module_fqn@,
            parent_class_fqn: text_option_view(self.parent_class_fqn),
            token: self.token@,
            aliases: pairs_view(self.aliases),
        }
    }
}

/// A module-level import, kept for resolution.
pub struct ImportRecord {
    pub source_module: NodeId,
    pub target_fqn: String,
}

pub struct ImportV {
    pub source_module: Seq<char>,
    pub target_fqn: Seq<char>,
}

impl View for ImportRecord {
    type V = ImportV;

    open spec fn view(&self) -> ImportV {
        ImportV { source_module: self.source_module@, target_fqn: self.target_fqn@ }
    }
}

/// What the scan of one file yields.
pub struct ParsedFile {
    pub nodes: Vec<Node>,
    pub callsites: Vec<CallsiteRecord>,
    pub import_records: Vec<ImportRecord>,
}

pub struct ParsedFileV {
    pub nodes: Seq<NodeV>,
    pub callsites: Seq<CallsiteV>,
    pub imports: Seq<ImportV>,
}

pub open spec fn nodes_view(v: Vec<Node>) -> Seq<NodeV> {
    v@.map_values(|n: Node| n@)
}

pub open spec fn callsites_view(v: Vec<CallsiteRecord>) -> Seq<CallsiteV> {
    v@.map_values(|c: CallsiteRecord| c@)
}

pub open spec fn imports_view(v: Vec<ImportRecord>) -> Seq<ImportV> {
    v@.map_values(|c: ImportRecord| c@)
}

impl View for ParsedFile {
    type V = ParsedFileV;

    open spec fn view(&self) -> ParsedFileV {
        ParsedFileV {
            nodes: nodes_view(self.nodes),
            callsites: callsites_view(self.callsites),
            imports: imports_view(self.import_records),
        }
    }
}

// ---------------------------------------------------------------- the scan, as a specification

/// What the scan of a file works from.
pub struct ScanCtx {
    pub lines: Seq<Seq<char>>,
    pub relative_path: Seq<char>,
    pub module_fqn: Seq<char>,
    pub version: u64,
}

/// A class or callable whose body is still open: its header line `start`
/// and the indentation of that line.
pub struct OpenV {
    pub is_class: bool,
    pub name: Seq<char>,
    pub fqn: Seq<char>,
    pub parent_class_fqn: Option<Seq<char>>,
    pub signature: SignatureV,
    pub start: int,
    pub indent: int,
    pub aliases: Seq<(Seq<char>, Seq<char>)>,
}

pub struct ScanV {
    pub nodes: Seq<NodeV>,
    pub callsites: Seq<CallsiteV>,
    pub imports: Seq<ImportV>,
    pub aliases: Seq<(Seq<char>, Seq<char>)>,
    pub open: Seq<OpenV>,
}

/// Whether a line counts for indentation: not blank and not a comment.
pub open spec fn is_significant(trimmed: Seq<char>) -> bool {
    trimmed.len() > 0 && trimmed[0] != '#'
}

/// The call tokens that a line contributes to the callable around it:
/// none for headers, decorators, blank and comment lines.
pub open spec fn line_tokens_of(line: Seq<char>) -> Seq<Seq<char>> {
    let trimmed = trim_start_of(line);
    if class_name_of(trimmed) is Some || def_signature_of(trimmed) is Some {
        Seq::empty()
    } else if is_significant(trimmed) && trimmed[0] != '@' && !starts_with(trimmed, "class "@)
        && !starts_with(trimmed, "def "@) && !starts_with(trimmed, "async def "@) {
        call_tokens_of(trimmed)
    } else {
        Seq::empty()
    }
}

/// The call tokens of some lines, in order.
pub open spec fn tokens_of_lines(lines: Seq<Seq<char>>) -> Seq<Seq<char>>
    decreases lines.len(),
{
    if lines.len() == 0 {
        Seq::empty()
    } else {
        tokens_of_lines(lines.drop_last()) + line_tokens_of(lines.last())
    }
}

/// The body of an open entity closed before line `end`: the lines after its
/// header.
pub open spec fn body_of(ctx: ScanCtx, e: OpenV, end: int) -> Seq<Seq<char>> {
    ctx.lines.subrange(e.start + 1, end)
}

pub open spec fn max_int(a: int, b: int) -> int {
    if a >= b {
        a
    } else {
        b
    }
}

/// The node of an entity whose body ends before line `end`, its last line
/// reported as `end_line`.
pub open spec fn entity_node(ctx: ScanCtx, e: OpenV, end: int, end_line: int) -> NodeV {
    NodeV {
        id: node_id_of("python"@, e.fqn),
        language: "python"@,
        name: e.name,
        fqn: e.fqn,
        kind: if e.is_class {
            NodeKindV::Class
        } else {
            match e.parent_class_fqn {
                Some(p) => NodeKindV::Method { parent_fqn: p },
                None => NodeKindV::Function,
            }
        },
        file_path: ctx.relative_path,
        location: SourceLocation {
            start_line: (e.start + 1) as u32,
            end_line: max_int(end_line, e.start + 1) as u32,
        },
        status: NodeStatusV::Active,
        signature: e.signature,
        body_hash: body_hash_of(body_of(ctx, e, end)),
        introduced_at_version: ctx.version,
    }
}

/// The call sites of a callable: one per call token of its body.
pub open spec fn entity_callsites(ctx: ScanCtx, e: OpenV, end: int) -> Seq<CallsiteV> {
    tokens_of_lines(body_of(ctx, e, end)).map_values(
        |t: Seq<char>|
            CallsiteV {
                source: node_id_of("python"@, e.fqn),
                module_fqn: ctx.module_fqn,
                parent_class_fqn: e.parent_class_fqn,
                token: t,
                aliases: e.aliases,
            },
    )
}

/// Closes the innermost open entity.
pub open spec fn close_top(ctx: ScanCtx, st: ScanV, end: int, end_line: int) -> ScanV {
    let e = st.open.last();
    ScanV {
        nodes: st.nodes.push(entity_node(ctx, e, end, end_line)),
        callsites: if e.is_class {
            st.callsites
        } else {
            st.callsites + entity_callsites(ctx, e, end)
        },
        open: st.open.drop_last(),
        ..st
    }
}

/// Closes every open entity indented at least as far as `indent`.
pub open spec fn close_while(ctx: ScanCtx, st: ScanV, indent: int, end: int, end_line: int) -> ScanV
    decreases st.open.len(),
{
    if st.open.len() > 0 && indent <= st.open.last().indent {
        close_while(ctx, close_top(ctx, st, end, end_line), indent, end, end_line)
    } else {
        st
    }
}

/// Closes every open entity, innermost first.
pub open spec fn close_all(ctx: ScanCtx, st: ScanV, end: int, end_line: int) -> ScanV
    decreases st.open.len(),
{
    if st.open.len() > 0 {
        close_all(ctx, close_top(ctx, st, end, end_line), end, end_line)
    } else {
        st
    }
}

pub open spec fn has_callable(open: Seq<OpenV>) -> bool
    decreases open.len(),
{
    open.len() > 0 && (!open.last().is_class || has_callable(open.drop_last()))
}

/// The innermost open class.
pub open spec fn last_class_fqn(open: Seq<OpenV>) -> Option<Seq<char>>
    decreases open.len(),
{
    if open.len() == 0 {
        None
    } else if open.last().is_class {
        Some(open.last().fqn)
    } else {
        last_class_fqn(open.drop_last())
    }
}

pub open spec fn module_id_of(ctx: ScanCtx) -> Seq<char> {
    node_id_of("python"@, ctx.module_fqn)
}

/// Records the bindings of a module-level import line.
pub open spec fn add_imports(ctx: ScanCtx, st: ScanV, bindings: Seq<(Seq<char>, Seq<char>)>) -> ScanV {
    ScanV {
        aliases: st.aliases + bindings,
        imports: st.imports + bindings.map_values(
            |b: (Seq<char>, Seq<char>)| ImportV { source_module: module_id_of(ctx), target_fqn: b.1 },
        ),
        ..st
    }
}

/// The scan of line `j`: close what its indentation ends, record imports at
/// module level, and open a class or callable where the line is a header
/// outside any callable.
pub open spec fn scan_step(ctx: ScanCtx, st: ScanV, j: int) -> ScanV {
    let line = ctx.lines[j];
    let indent = leading_spaces_of(line);
    let trimmed = trim_start_of(line);
    let st1 = if is_significant(trimmed) {
        close_while(ctx, st, indent, j, j)
    } else {
        st
    };
    let st2 = if is_significant(trimmed) && st1.open.len() == 0 {
        add_imports(ctx, st1, import_aliases_of(trimmed))
    } else {
        st1
    };
    match class_name_of(trimmed) {
        Some(name) => if has_callable(st2.open) {
            st2
        } else {
            ScanV {
                open: st2.open.push(
                    OpenV {
                        is_class: true,
                        name,
                        fqn: ctx.module_fqn + "."@ + name,
                        parent_class_fqn: None,
                        signature: SignatureV::Untyped { arity: None },
                        start: j,
                        indent,
                        aliases: st2.aliases,
                    },
                ),
                ..st2
            }
        },
        None => match def_signature_of(trimmed) {
            Some((name, signature)) => if has_callable(st2.open) {
                st2
            } else {
                let parent = last_class_fqn(st2.open);
                ScanV {
                    open: st2.open.push(
                        OpenV {
                            is_class: false,
                            name,
                            fqn: match parent {
                                Some(p) => p + "."@ + name,
                                None => ctx.module_fqn + "."@ + name,
                            },
                            parent_class_fqn: parent,
                            signature,
                            start: j,
                            indent,
                            aliases: st2.aliases,
                        },
                    ),
                    ..st2
                }
            },
            None => st2,
        },
    }
}

/// The module node of the file.
pub open spec fn module_node_of(ctx: ScanCtx) -> NodeV {
    NodeV {
        id: module_id_of(ctx),
        language: "python"@,
        name: after_last(ctx.module_fqn, '.'),
        fqn: ctx.module_fqn,
        kind: NodeKindV::Module,
        file_path: ctx.relative_path,
        location: SourceLocation {
            start_line: 1,
            end_line: max_int(ctx.lines.len() as int, 1) as u32,
        },
        status: NodeStatusV::Active,
        signature: SignatureV::Untyped { arity: None },
        body_hash: body_hash_of(ctx.lines),
        introduced_at_version: ctx.version,
    }
}

/// The state after scanning the first `k` lines.
pub open spec fn scan_run(ctx: ScanCtx, k: int) -> ScanV
    decreases k,
{
    if k <= 0 {
        ScanV {
            nodes: seq![module_node_of(ctx)],
            callsites: Seq::empty(),
            imports: Seq::empty(),
            aliases: Seq::empty(),
            open: Seq::empty(),
        }
    } else {
        scan_step(ctx, scan_run(ctx, k - 1), k - 1)
    }
}

/// What scanning a whole file yields: every line scanned, then every entity
/// still open closed at the end of the file.
pub open spec fn parsed_file_of(ctx: ScanCtx) -> ParsedFileV {
    let n = ctx.lines.len() as int;
    let st = close_all(ctx, scan_run(ctx, n), n, max_int(n, 1));
    ParsedFileV { nodes: st.nodes, callsites: st.callsites, imports: st.imports }
}

// ---------------------------------------------------------------- the scan

struct OpenEntity {
    is_class: bool,
    name: String,
    fqn: String,
    parent_class_fqn: Option<String>,
    signature: Signature,
    start: usize,
    indent: usize,
    aliases: Vec<(String, String)>,
}

impl View for OpenEntity {
    type V = OpenV;

    closed spec fn view(&self) -> OpenV {
        OpenV {
            is_class: self.is_class,
            name: self.name@,
            fqn: self.fqn@,
            parent_class_fqn: text_option_view(self.parent_class_fqn),
            signature: self.signature@,
            start: self.start as int,
            indent: self.indent as int,
            aliases: pairs_view(self.aliases),
        }
    }
}

struct ScanState {
    nodes: Vec<Node>,
    callsites: Vec<CallsiteRecord>,
    imports: Vec<ImportRecord>,
    aliases: Vec<(String, String)>,
    open: Vec<OpenEntity>,
}

impl View for ScanState {
    type V = ScanV;

    closed spec fn view(&self) -> ScanV {
        ScanV {
            nodes: nodes_view(self.nodes),
            callsites: callsites_view(self.callsites),
            imports: imports_view(self.imports),
            aliases: pairs_view(self.aliases),
            open: self.open@.map_values(|e: OpenEntity| e@),
        }
    }
}

pub open spec fn ctx_of(lines: Seq<Seq<char>>, relative_path: Seq<char>, module_fqn: Seq<char>, version: u64) -> ScanCtx {
    ScanCtx { lines, relative_path, module_fqn, version }
}

/// Open entities start before `j`.
pub open spec fn starts_before(open: Seq<OpenV>, j: int) -> bool {
    forall|i: int| 0 <= i < open.len() ==> 0 <= #[trigger] open[i].start < j
}

fn clone_pairs(v: &Vec<(String, String)>) -> (r: Vec<(String, String)>)
    ensures
        pairs_view(r) == pairs_view(*v),
{
    let mut r: Vec<(String, String)> = Vec::new();
    let mut i: usize = 0;
    while i < v.len()
        invariant
            i <= v@.len(),
            pairs_view(r) == pairs_view(*v).take(i as int),
        decreases v@.len() - i,
    {
        let ghost before = r@;
        let pair = (v[i].0.clone(), v[i].1.clone());
        r.push(pair);
        proof {
            crate::text::lemma_map_push(before, pair, |p: (String, String)| (p.0@, p.1@));
            assert(pairs_view(*v).take(i + 1) =~= pairs_view(*v).take(i as int).push((v@[i as int].0@, v@[i as int].1@)));
        }
        i = i + 1;
        assert(pairs_view(r) =~= pairs_view(*v).take(i as int));
    }
    assert(pairs_view(*v).take(v@.len() as int) =~= pairs_view(*v));
    r
}

fn line_tokens(line: &str) -> (r: Vec<String>)
    ensures
        texts_view(r) == line_tokens_of(line@),
{
    let trimmed = trim_start_text(line);
    let t = trimmed.as_str();
    let is_class_header = parse_class_name(t).is_some();
    let is_def_header = parse_def_signature(t).is_some();
    if is_class_header || is_def_header {
        let r: Vec<String> = Vec::new();
        assert(texts_view(r) =~= Seq::<Seq<char>>::empty());
        return r;
    }
    let significant = t.unicode_len() > 0 && t.get_char(0) != '#';
    if significant && t.get_char(0) != '@' && !starts_with_text(t, "class ") && !starts_with_text(
        t,
        "def ",
    ) && !starts_with_text(t, "async def ") {
        extract_call_tokens(t)
    } else {
        let r: Vec<String> = Vec::new();
        assert(texts_view(r) =~= Seq::<Seq<char>>::empty());
        r
    }
}

/// The call tokens of `lines[from..to]`.
fn tokens_in(lines: &Vec<String>, from: usize, to: usize) -> (r: Vec<String>)
    requires
        from <= to <= lines@.len(),
    ensures
        texts_view(r) == tokens_of_lines(texts_view(*lines).subrange(from as int, to as int)),
{
    let ghost all = texts_view(*lines);
    let mut out: Vec<String> = Vec::new();
    let mut k = from;
    assert(all.subrange(from as int, from as int) =~= Seq::<Seq<char>>::empty());
    while k < to
        invariant
            from <= k <= to <= lines@.len(),
            all == texts_view(*lines),
            texts_view(out) == tokens_of_lines(all.subrange(from as int, k as int)),
        decreases to - k,
    {
        let toks = line_tokens(lines[k].as_str());
        let ghost before = texts_view(out);
        let mut t: usize = 0;
        while t < toks.len()
            invariant
                t <= toks@.len(),
                texts_view(out) == before + texts_view(toks).take(t as int),
            decreases toks@.len() - t,
        {
            let ghost prev = out@;
            let tok = toks[t].clone();
            out.push(tok);
            proof {
                crate::text::lemma_map_push(prev, tok, |x: String| x@);
                assert(texts_view(toks).take(t + 1) =~= texts_view(toks).take(t as int).push(toks@[t as int]@));
            }
            t = t + 1;
            assert(texts_view(out) =~= before + texts_view(toks).take(t as int));
        }
        assert(texts_view(toks).take(toks@.len() as int) =~= texts_view(toks));
        assert(all.subrange(from as int, k + 1).drop_last() =~= all.subrange(from as int, k as int));
        k = k + 1;
    }
    out
}

/// The body hash of `lines[from..to]`.
fn body_hash_in(lines: &Vec<String>, from: usize, to: usize) -> (r: String)
    requires
        from <= to <= lines@.len(),
    ensures
        r@ == body_hash_of(texts_view(*lines).subrange(from as int, to as int)),
{
    let mut body: Vec<String> = Vec::new();
    let mut k = from;
    while k < to
        invariant
            from <= k <= to <= lines@.len(),
            texts_view(body) == texts_view(*lines).subrange(from as int, k as int),
        decreases to - k,
    {
        let ghost prev = body@;
        let line = lines[k].clone();
        body.push(line);
        proof {
            crate::text::lemma_map_push(prev, line, |x: String| x@);
        }
        k = k + 1;
        assert(texts_view(body) =~= texts_view(*lines).subrange(from as int, k as int));
    }
    hash_normalized_lines(&body)
}

/// Turns a closed entity into its node and, for a callable, its call sites.
fn close_entity(
    entity: OpenEntity,
    end: usize,
    end_line: u32,
    lines: &Vec<String>,
    relative_path: &str,
    module_fqn: &str,
    version: GraphVersion,
    nodes: &mut Vec<Node>,
    callsites: &mut Vec<CallsiteRecord>,
)
    requires
        entity.start < end <= lines@.len(),
        lines@.len() < u32::MAX,
    ensures
        ({
            let ctx = ctx_of(texts_view(*lines), relative_path@, module_fqn@, version@);
            &&& nodes_view(*final(nodes)) == nodes_view(*old(nodes)).push(
                entity_node(ctx, entity@, end as int, end_line as int),
            )
            &&& callsites_view(*final(callsites)) == if entity.is_class {
                callsites_view(*old(callsites))
            } else {
                callsites_view(*old(callsites)) + entity_callsites(ctx, entity@, end as int)
            }
        }),
{
    let ghost ctx = ctx_of(texts_view(*lines), relative_path@, module_fqn@, version@);
    let id = NodeId::new("python", entity.fqn.as_str());
    let body_hash = body_hash_in(lines, entity.start + 1, end);
    let start_line = (entity.start as u32) + 1;
    let last_line = if end_line >= start_line {
        end_line
    } else {
        start_line
    };
    if !entity.is_class {
        let tokens = tokens_in(lines, entity.start + 1, end);
        let ghost before = callsites_view(*callsites);
        let ghost expected = entity_callsites(ctx, entity@, end as int);
        let mut t: usize = 0;
        while t < tokens.len()
            invariant
                t <= tokens@.len(),
                texts_view(tokens) == tokens_of_lines(body_of(ctx, entity@, end as int)),
                expected == entity_callsites(ctx, entity@, end as int),
                expected.len() == tokens@.len(),
                id@ == node_id_of("python"@, entity.fqn@),
                ctx == ctx_of(texts_view(*lines), relative_path@, module_fqn@, version@),
                callsites_view(*callsites) == before + expected.take(t as int),
            decreases tokens@.len() - t,
        {
            let ghost prev = callsites@;
            let record = CallsiteRecord {
                source: id.clone(),
                module_fqn: String::from_str(module_fqn),
                parent_class_fqn: crate::schema::clone_text_option(&entity.parent_class_fqn),
                token: tokens[t].clone(),
                aliases: clone_pairs(&entity.aliases),
            };
            callsites.push(record);
            proof {
                crate::text::lemma_map_push(prev, record, |c: CallsiteRecord| c@);
                assert(expected.take(t + 1) =~= expected.take(t as int).push(expected[t as int]));
                assert(texts_view(tokens)[t as int] == tokens@[t as int]@);
            }
            t = t + 1;
            assert(callsites_view(*callsites) =~= before + expected.take(t as int));
        }
        assert(expected.take(tokens@.len() as int) =~= expected);
    }
    let kind = if entity.is_class {
        NodeKind::Class
    } else {
        match &entity.parent_class_fqn {
            Some(p) => NodeKind::Method { parent_fqn: p.clone() },
            None => NodeKind::Function,
        }
    };
    let node = Node {
        id,
        language: String::from_str("python"),
        name: entity.name,
        fqn: entity.fqn,
        kind,
        file_path: String::from_str(relative_path),
        location: SourceLocation { start_line, end_line: last_line },
        status: NodeStatus::Active,
        signature: entity.signature,
        body_hash,
        introduced_at_version: version,
    };
    nodes.push(node);
    assert(nodes_view(*nodes) =~= nodes_view(*old(nodes)).push(
        entity_node(ctx, entity@, end as int, end_line as int),
    ));
}

fn has_callable_open(open: &Vec<OpenEntity>) -> (r: bool)
    ensures
        r == has_callable(open@.map_values(|e: OpenEntity| e@)),
{
    let ghost all = open@.map_values(|e: OpenEntity| e@);
    let mut i = open.len();
    assert(all.take(i as int) =~= all);
    while i > 0
        invariant
            i <= open@.len(),
            all == open@.map_values(|e: OpenEntity| e@),
            has_callable(all) == has_callable(all.take(i as int)),
        decreases i,
    {
        assert(all.take(i as int).drop_last() =~= all.take(i - 1));
        if !open[i - 1].is_class {
            return true;
        }
        i = i - 1;
    }
    false
}

fn last_class(open: &Vec<OpenEntity>) -> (r: Option<String>)
    ensures
        text_option_view(r) == last_class_fqn(open@.map_values(|e: OpenEntity| e@)),
{
    let ghost all = open@.map_values(|e: OpenEntity| e@);
    let mut i = open.len();
    assert(all.take(i as int) =~= all);
    while i > 0
        invariant
            i <= open@.len(),
            all == open@.map_values(|e: OpenEntity| e@),
            last_class_fqn(all) == last_class_fqn(all.take(i as int)),
        decreases i,
    {
        assert(all.take(i as int).drop_last() =~= all.take(i - 1));
        if open[i - 1].is_class {
            return Some(open[i - 1].fqn.clone());
        }
        i = i - 1;
    }
    None
}

/// Closes every open entity indented at least as far as `indent`, before
/// line `j`.
fn close_indented(
    st: &mut ScanState,
    indent: usize,
    j: usize,
    lines: &Vec<String>,
    relative_path: &str,
    module_fqn: &str,
    version: GraphVersion,
)
    requires
        starts_before(old(st)@.open, j as int),
        j <= lines@.len(),
        lines@.len() < u32::MAX,
    ensures
        final(st)@ == close_while(
            ctx_of(texts_view(*lines), relative_path@, module_fqn@, version@),
            old(st)@,
            indent as int,
            j as int,
            j as int,
        ),
        starts_before(final(st)@.open, j as int),
{
    let ghost ctx = ctx_of(texts_view(*lines), relative_path@, module_fqn@, version@);
    while st.open.len() > 0 && indent <= st.open[st.open.len() - 1].indent
        invariant
            ctx == ctx_of(texts_view(*lines), relative_path@, module_fqn@, version@),
            starts_before(st@.open, j as int),
            j <= lines@.len(),
            lines@.len() < u32::MAX,
            close_while(ctx, old(st)@, indent as int, j as int, j as int) == close_while(
                ctx,
                st@,
                indent as int,
                j as int,
                j as int,
            ),
        decreases st.open@.len(),
    {
        let ghost before = st@;
        let entity = st.open.pop().unwrap();
        proof {
            assert(before.open.last() == entity@);
            assert(st@.open =~= before.open.drop_last());
        }
        close_entity(
            entity,
            j,
            j as u32,
            lines,
            relative_path,
            module_fqn,
            version,
            &mut st.nodes,
            &mut st.callsites,
        );
        assert(st@ == close_top(ctx, before, j as int, j as int));
    }
}

/// Closes every entity still open at the end of the file.
fn close_remaining(
    st: &mut ScanState,
    lines: &Vec<String>,
    relative_path: &str,
    module_fqn: &str,
    version: GraphVersion,
)
    requires
        starts_before(old(st)@.open, lines@.len() as int),
        lines@.len() < u32::MAX,
    ensures
        final(st)@ == close_all(
            ctx_of(texts_view(*lines), relative_path@, module_fqn@, version@),
            old(st)@,
            lines@.len() as int,
            max_int(lines@.len() as int, 1),
        ),
{
    let ghost ctx = ctx_of(texts_view(*lines), relative_path@, module_fqn@, version@);
    let n = lines.len();
    let end_line: u32 = if n >= 1 {
        n as u32
    } else {
        1
    };
    while st.open.len() > 0
        invariant
            ctx == ctx_of(texts_view(*lines), relative_path@, module_fqn@, version@),
            n == lines@.len(),
            end_line == max_int(n as int, 1),
            starts_before(st@.open, n as int),
            lines@.len() < u32::MAX,
            close_all(ctx, old(st)@, n as int, end_line as int) == close_all(
                ctx,
                st@,
                n as int,
                end_line as int,
            ),
        decreases st.open@.len(),
    {
        let ghost before = st@;
        let entity = st.open.pop().unwrap();
        proof {
            assert(before.open.last() == entity@);
            assert(st@.open =~= before.open.drop_last());
        }
        close_entity(
            entity,
            n,
            end_line,
            lines,
            relative_path,
            module_fqn,
            version,
            &mut st.nodes,
            &mut st.callsites,
        );
        assert(st@ == close_top(ctx, before, n as int, end_line as int));
    }
}

/// Records the alias bindings and import records of a module-level import
/// line.
fn record_imports(st: &mut ScanState, bindings: Vec<(String, String)>, module_id: &NodeId, ctx: Ghost<ScanCtx>)
    requires
        module_id@ == module_id_of(ctx@),
    ensures
        final(st)@ == add_imports(ctx@, old(st)@, pairs_view(bindings)),
{
    let ghost b = pairs_view(bindings);
    let ghost mapped = b.map_values(
        |p: (Seq<char>, Seq<char>)| ImportV { source_module: module_id_of(ctx@), target_fqn: p.1 },
    );
    let ghost aliases0 = st@.aliases;
    let ghost imports0 = st@.imports;
    let mut k: usize = 0;
    while k < bindings.len()
        invariant
            k <= bindings@.len(),
            b == pairs_view(bindings),
            module_id@ == module_id_of(ctx@),
            mapped == b.map_values(
                |p: (Seq<char>, Seq<char>)| ImportV { source_module: module_id_of(ctx@), target_fqn: p.1 },
            ),
            st@ == (ScanV { aliases: aliases0 + b.take(k as int), imports: imports0 + mapped.take(k as int), ..old(st)@ }),
        decreases bindings@.len() - k,
    {
        let ghost prev_aliases = st.aliases@;
        let ghost prev_imports = st.imports@;
        let alias = (bindings[k].0.clone(), bindings[k].1.clone());
        st.aliases.push(alias);
        let record = ImportRecord { source_module: module_id.clone(), target_fqn: bindings[k].1.clone() };
        st.imports.push(record);
        proof {
            crate::text::lemma_map_push(prev_aliases, alias, |p: (String, String)| (p.0@, p.1@));
            crate::text::lemma_map_push(prev_imports, record, |c: ImportRecord| c@);
            assert(b.take(k + 1) =~= b.take(k as int).push(b[k as int]));
            assert(mapped.take(k + 1) =~= mapped.take(k as int).push(mapped[k as int]));
        }
        k = k + 1;
        assert(st@ =~= (ScanV { aliases: aliases0 + b.take(k as int), imports: imports0 + mapped.take(k as int), ..old(st)@ }));
    }
    assert(b.take(bindings@.len() as int) =~= b);
    assert(mapped.take(bindings@.len() as int) =~= mapped);
}

/// Scans one Python source file whose path relative to the project root is
/// `relative_path` and whose module is `module_fqn`.
pub fn parse_python_file(relative_path: &str, module_fqn: &str, source: &str, version: GraphVersion) -> (r: ParsedFile)
    requires
        lines_of(source@).len() < u32::MAX,
    ensures
        r@ == parsed_file_of(ctx_of(lines_of(source@), relative_path@, module_fqn@, version@)),
{
    let lines = split_lines(source);
    let ghost ctx = ctx_of(texts_view(lines), relative_path@, module_fqn@, version@);
    let n = lines.len();
    let total_lines: u32 = n as u32;
    let module_id = NodeId::new("python", module_fqn);
    let module_node = Node {
        id: module_id.clone(),
        language: String::from_str("python"),
        name: after_last_text(module_fqn, '.'),
        fqn: String::from_str(module_fqn),
        kind: NodeKind::Module,
        file_path: String::from_str(relative_path),
        location: SourceLocation {
            start_line: 1,
            end_line: if total_lines >= 1 {
                total_lines
            } else {
                1
            },
        },
        status: NodeStatus::Active,
        signature: Signature::Untyped { arity: None },
        body_hash: hash_normalized_lines(&lines),
        introduced_at_version: version,
    };
    let mut nodes: Vec<Node> = Vec::new();
    nodes.push(module_node);
    let mut st = ScanState {
        nodes,
        callsites: Vec::new(),
        imports: Vec::new(),
        aliases: Vec::new(),
        open: Vec::new(),
    };
    proof {
        assert(st@.nodes =~= seq![module_node_of(ctx)]);
        assert(st@.callsites =~= Seq::<CallsiteV>::empty());
        assert(st@.imports =~= Seq::<ImportV>::empty());
        assert(st@.aliases =~= Seq::<(Seq<char>, Seq<char>)>::empty());
        assert(st@.open =~= Seq::<OpenV>::empty());
        assert(st@ == scan_run(ctx, 0));
    }
    let mut j: usize = 0;
    while j < n
        invariant
            n == lines@.len(),
            n < u32::MAX,
            j <= n,
            ctx == ctx_of(texts_view(lines), relative_path@, module_fqn@, version@),
            module_id@ == module_id_of(ctx),
            st@ == scan_run(ctx, j as int),
            starts_before(st@.open, j as int),
        decreases n - j,
    {
        let ghost before = st@;
        let line = lines[j].as_str();
        let indent = leading_spaces(line);
        let trimmed = trim_start_text(line);
        let t = trimmed.as_str();
        let significant = t.unicode_len() > 0 && t.get_char(0) != '#';
        assert(significant == is_significant(trim_start_of(ctx.lines[j as int])));
        proof {
            assert(starts_before(st@.open, j + 1)) by {
                assert forall|i: int| 0 <= i < st@.open.len() implies 0 <= #[trigger] st@.open[i].start < j + 1 by {}
            }
        }
        if significant {
            close_indented(&mut st, indent, j, &lines, relative_path, module_fqn, version);
        }
        let ghost st1 = st@;
        if significant && st.open.len() == 0 {
            let bindings = parse_import_aliases(t);
            record_imports(&mut st, bindings, &module_id, Ghost(ctx));
        }
        let ghost st2 = st@;
        assert(starts_before(st2.open, j + 1)) by {
            assert forall|i: int| 0 <= i < st2.open.len() implies 0 <= #[trigger] st2.open[i].start < j + 1 by {
                assert(st2.open[i] == st1.open[i]);
            }
        }
        match parse_class_name(t) {
            Some(name) => {
                if !has_callable_open(&st.open) {
                    let mut fqn = String::from_str(module_fqn);
                    fqn.append(".");
                    fqn.append(name.as_str());
                    let entity = OpenEntity {
                        is_class: true,
                        name,
                        fqn,
                        parent_class_fqn: None,
                        signature: Signature::Untyped { arity: None },
                        start: j,
                        indent,
                        aliases: clone_pairs(&st.aliases),
                    };
                    let ghost prev = st.open@;
                    st.open.push(entity);
                    proof {
                        crate::text::lemma_map_push(prev, entity, |e: OpenEntity| e@);
                    }
                }
            },
            None => {
                match parse_def_signature(t) {
                    Some((name, signature)) => {
                        if !has_callable_open(&st.open) {
                            let parent = last_class(&st.open);
                            let mut fqn = match &parent {
                                Some(p) => p.clone(),
                                None => String::from_str(module_fqn),
                            };
                            fqn.append(".");
                            fqn.append(name.as_str());
                            let entity = OpenEntity {
                                is_class: false,
                                name,
                                fqn,
                                parent_class_fqn: parent,
                                signature,
                                start: j,
                                indent,
                                aliases: clone_pairs(&st.aliases),
                            };
                            let ghost prev = st.open@;
                            st.open.push(entity);
                            proof {
                                crate::text::lemma_map_push(prev, entity, |e: OpenEntity| e@);
                            }
                        }
                    },
                    None => {},
                }
            },
        }
        proof {
            assert(starts_before(st@.open, j + 1)) by {
                assert forall|i: int| 0 <= i < st@.open.len() implies 0 <= #[trigger] st@.open[i].start < j + 1 by {
                    if i < st2.open.len() {
                        assert(st@.open[i] == st2.open[i]);
                    }
                }
            }
        }
        assert(st@ == scan_step(ctx, before, j as int));
        j = j + 1;
    }
    close_remaining(&mut st, &lines, relative_path, module_fqn, version);
    ParsedFile { nodes: st.nodes, callsites: st.callsites, import_records: st.imports }
}


// ---------------------------------------------------------------- what every scan keeps

/// Some node of `nodes` has this id.
pub open spec fn has_node_id(nodes: Seq<NodeV>, id: Seq<char>) -> bool {
    exists|j: int| 0 <= j < nodes.len() && #[trigger] nodes[j].id == id
}

/// A node that the scan of this file emits: its id is the one that its
/// language and name give, in the file and at the version scanned.
pub open spec fn is_scanned_node(ctx: ScanCtx, n: NodeV) -> bool {
    &&& node_id_of(n.language, n.fqn) == n.id
    &&& n.language == "python"@
    &&& n.file_path == ctx.relative_path
    &&& n.introduced_at_version == ctx.version
}

/// What holds of the scan state after every line: the module node comes
/// first, every node is a scanned node, every call site comes from a node
/// already emitted, and every import from the module.
pub open spec fn scan_invariant(ctx: ScanCtx, st: ScanV) -> bool {
    &&& st.nodes.len() >= 1
    &&& st.nodes[0] == module_node_of(ctx)
    &&& forall|i: int| 0 <= i < st.nodes.len() ==> is_scanned_node(ctx, #[trigger] st.nodes[i])
    &&& forall|i: int|
        0 <= i < st.callsites.len() ==> has_node_id(st.nodes, (#[trigger] st.callsites[i]).source)
    &&& forall|i: int|
        0 <= i < st.imports.len() ==> (#[trigger] st.imports[i]).source_module == module_id_of(ctx)
    &&& forall|i: int| 0 <= i < st.callsites.len() ==> !is_control_keyword((#[trigger] st.callsites[i]).token)
}

proof fn lemma_tokens_of_lines(lines: Seq<Seq<char>>)
    ensures
        forall|i: int| 0 <= i < tokens_of_lines(lines).len() ==> !is_control_keyword(#[trigger] tokens_of_lines(lines)[i]),
    decreases lines.len(),
{
    if lines.len() > 0 {
        let prev = tokens_of_lines(lines.drop_last());
        lemma_tokens_of_lines(lines.drop_last());
        let line = lines.last();
        let trimmed = trim_start_of(line);
        lemma_call_tokens_in(regex_captures_iter_of(CALL_PATTERN@, trimmed));
        let lt = line_tokens_of(line);
        let all = tokens_of_lines(lines);
        assert(all == prev + lt);
        assert forall|i: int| 0 <= i < all.len() implies !is_control_keyword(#[trigger] all[i]) by {
            if i < prev.len() {
                assert(all[i] == prev[i]);
            } else {
                assert(all[i] == lt[i - prev.len()]);
            }
        }
    }
}

proof fn lemma_close_top_keeps(ctx: ScanCtx, st: ScanV, end: int, end_line: int)
    requires
        scan_invariant(ctx, st),
        st.open.len() > 0,
    ensures
        scan_invariant(ctx, close_top(ctx, st, end, end_line)),
{
    let e = st.open.last();
    let n = entity_node(ctx, e, end, end_line);
    let after = close_top(ctx, st, end, end_line);
    assert(after.nodes == st.nodes.push(n));
    assert(after.nodes[0] == st.nodes[0]);
    assert forall|i: int| 0 <= i < after.nodes.len() implies is_scanned_node(ctx, #[trigger] after.nodes[i]) by {
        if i < st.nodes.len() {
            assert(after.nodes[i] == st.nodes[i]);
        }
    }
    lemma_tokens_of_lines(body_of(ctx, e, end));
    assert forall|i: int| 0 <= i < after.callsites.len() implies !is_control_keyword(
        (#[trigger] after.callsites[i]).token,
    ) by {
        if i < st.callsites.len() {
            assert(after.callsites[i] == st.callsites[i]);
        } else {
            let toks = tokens_of_lines(body_of(ctx, e, end));
            assert(after.callsites[i].token == toks[i - st.callsites.len()]);
        }
    }
    assert forall|i: int| 0 <= i < after.callsites.len() implies has_node_id(
        after.nodes,
        (#[trigger] after.callsites[i]).source,
    ) by {
        if i < st.callsites.len() {
            assert(after.callsites[i] == st.callsites[i]);
            let j = choose|j: int| 0 <= j < st.nodes.len() && #[trigger] st.nodes[j].id == st.callsites[i].source;
            assert(after.nodes[j] == st.nodes[j]);
        } else {
            let k = st.nodes.len() as int;
            assert(after.nodes[k] == n);
        }
    }
}

proof fn lemma_close_while_keeps(ctx: ScanCtx, st: ScanV, indent: int, end: int, end_line: int)
    requires
        scan_invariant(ctx, st),
    ensures
        scan_invariant(ctx, close_while(ctx, st, indent, end, end_line)),
    decreases st.open.len(),
{
    if st.open.len() > 0 && indent <= st.open.last().indent {
        lemma_close_top_keeps(ctx, st, end, end_line);
        lemma_close_while_keeps(ctx, close_top(ctx, st, end, end_line), indent, end, end_line);
    }
}

proof fn lemma_close_all_keeps(ctx: ScanCtx, st: ScanV, end: int, end_line: int)
    requires
        scan_invariant(ctx, st),
    ensures
        scan_invariant(ctx, close_all(ctx, st, end, end_line)),
    decreases st.open.len(),
{
    if st.open.len() > 0 {
        lemma_close_top_keeps(ctx, st, end, end_line);
        lemma_close_all_keeps(ctx, close_top(ctx, st, end, end_line), end, end_line);
    }
}

proof fn lemma_scan_step_keeps(ctx: ScanCtx, st: ScanV, j: int)
    requires
        scan_invariant(ctx, st),
    ensures
        scan_invariant(ctx, scan_step(ctx, st, j)),
{
    let line = ctx.lines[j];
    let indent = leading_spaces_of(line);
    let trimmed = trim_start_of(line);
    let st1 = if is_significant(trimmed) {
        close_while(ctx, st, indent, j, j)
    } else {
        st
    };
    lemma_close_while_keeps(ctx, st, indent, j, j);
    assert(scan_invariant(ctx, st1));
    let st2 = if is_significant(trimmed) && st1.open.len() == 0 {
        add_imports(ctx, st1, import_aliases_of(trimmed))
    } else {
        st1
    };
    assert(scan_invariant(ctx, st2)) by {
        if is_significant(trimmed) && st1.open.len() == 0 {
            let b = import_aliases_of(trimmed);
            assert forall|i: int| 0 <= i < st2.imports.len() implies (#[trigger] st2.imports[i]).source_module
                == module_id_of(ctx) by {
                if i >= st1.imports.len() {
                    assert(st2.imports[i] == b.map_values(
                        |x: (Seq<char>, Seq<char>)| ImportV { source_module: module_id_of(ctx), target_fqn: x.1 },
                    )[i - st1.imports.len()]);
                } else {
                    assert(st2.imports[i] == st1.imports[i]);
                }
            }
        }
    }
}

proof fn lemma_scan_run_keeps(ctx: ScanCtx, k: int)
    ensures
        scan_invariant(ctx, scan_run(ctx, k)),
    decreases k,
{
    if k > 0 {
        lemma_scan_run_keeps(ctx, k - 1);
        lemma_scan_step_keeps(ctx, scan_run(ctx, k - 1), k - 1);
    }
}

/// The scan of a whole file keeps the invariant: its first node is the
/// module's, its nodes are scanned nodes, its call sites come from its
/// nodes and its imports from the module.
pub proof fn lemma_parsed_file_invariant(ctx: ScanCtx)
    ensures
        ({
            let f = parsed_file_of(ctx);
            scan_invariant(
                ctx,
                ScanV { nodes: f.nodes, callsites: f.callsites, imports: f.imports, aliases: Seq::empty(), open: Seq::empty() },
            )
        }),
{
    let n = ctx.lines.len() as int;
    lemma_scan_run_keeps(ctx, n);
    lemma_close_all_keeps(ctx, scan_run(ctx, n), n, max_int(n, 1));
}

} // verus!
