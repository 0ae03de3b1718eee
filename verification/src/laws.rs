//! Properties that relate several operations of the library, proved over
//! the specifications that the operations' contracts use.

use vstd::prelude::*;

use crate::digest::is_lower_hex;
use crate::graph::{
    callee_entries, caller_entries, graph_consistent, rename_applied, reroute, resolves, subgraph_of,
    with_escalation, GraphEngineV,
};
use crate::parser::{call_token_of, call_tokens_in, group_of, is_control_keyword, lemma_call_tokens_in};
use crate::project::{
    callsite_resolution_of, drafts_unique, fqn_index, id_index, is_project_draft, is_project_node,
    is_uniquely_named, lemma_ids_named_two, lemma_project_fits, name_index, project_of, SourceFile,
    SHORT_NAME_CONFIDENCE,
};
use crate::scanner::{lemma_parsed_file_invariant, parsed_file_of, CallsiteV, ScanCtx, ScanV};
use crate::rename::{evidence_confidence, rename_evidence_of, RenameEvidence, AUTO_ACCEPT_THRESHOLD};
use crate::scanner::has_node_id;
use crate::validator::out_of_calibrated_range;
use crate::schema::{
    edge_confidence_ok, is_canonical_id, lower_hex_char, lower_hex_text, node_id_consistent,
    param_names_of, ConfidenceConfig, ConfidenceRange, DeprecatedMetadataV, DeprecationReasonV,
    EdgeV, NodeStatusV, NodeSummaryV, NodeV, SignatureV,
    CONFIDENCE_SCALE,
};

verus! {

/// An id in the form the engine stores (what `NodeId::new` makes) is its own
/// lower-case form, so `NodeId::from_hex` gives it back unchanged.
pub proof fn law_canonical_id_round_trip(id: Seq<char>)
    requires
        is_canonical_id(id),
    ensures
        lower_hex_text(id) == id,
{
    assert forall|i: int| 0 <= i < id.len() implies lower_hex_char(id[i]) == id[i] by {
        assert(is_lower_hex(id[i]));
    }
    assert(lower_hex_text(id) =~= id);
}

/// Rename confidence lies in `[0, 1.0]`, and a rename is accepted
/// automatically exactly when the bodies hash alike.
pub proof fn law_auto_accept_iff_same_body(e: RenameEvidence)
    ensures
        0 <= evidence_confidence(e) <= CONFIDENCE_SCALE,
        evidence_confidence(e) >= AUTO_ACCEPT_THRESHOLD <==> e.body_hash_match,
{
}

/// A node just written can be read back: after an upsert its id resolves to
/// it.
pub proof fn law_read_after_upsert(g: GraphEngineV, n: NodeV)
    requires
        graph_consistent(g),
        node_id_consistent(n),
        is_canonical_id(n.id),
    ensures
        ({
            let after = GraphEngineV { nodes: g.nodes.insert(n.id, n), ..g };
            &&& graph_consistent(after)
            &&& resolves(after.nodes, n.id)
            &&& after.nodes[lower_hex_text(n.id)] == n
        }),
{
    law_canonical_id_round_trip(n.id);
    let after = GraphEngineV { nodes: g.nodes.insert(n.id, n), ..g };
    assert forall|i: int| 0 <= i < after.edges.len() implies after.nodes.contains_key(
        #[trigger] after.edges[i].source,
    ) by {
        assert(g.nodes.contains_key(g.edges[i].source));
    }
}

/// Deprecating a stored node keeps it stored under its id with a deprecated
/// status, which is the condition on which `write_edge` refuses every edge
/// into it.
pub proof fn law_deprecation_marks_target(g: GraphEngineV, k: Seq<char>, metadata: DeprecatedMetadataV)
    requires
        g.nodes.contains_key(k),
    ensures
        ({
            let after = GraphEngineV {
                nodes: g.nodes.insert(
                    k,
                    NodeV {
                        status: NodeStatusV::Deprecated(metadata),
                        introduced_at_version: g.current_version,
                        ..g.nodes[k]
                    },
                ),
                ..g
            };
            &&& after.nodes.contains_key(k)
            &&& after.nodes[k].status is Deprecated
            &&& after.nodes.dom() == g.nodes.dom()
        }),
{
}

/// After a rename is applied, no edge points at the old node any more, no
/// edge is lost, and edges into other nodes are untouched.
pub proof fn law_reroute_empties_old_target(edges: Seq<EdgeV>, from: Seq<char>, to: Seq<char>)
    requires
        from != to,
    ensures
        reroute(edges, from, to).len() == edges.len(),
        forall|i: int| 0 <= i < edges.len() ==> #[trigger] reroute(edges, from, to)[i].target != from,
        forall|i: int|
            0 <= i < edges.len() && edges[i].target != from ==> #[trigger] reroute(edges, from, to)[i]
                == edges[i],
{
}

/// Once the overlay deletes a stored node, the node still resolves and is
/// recorded as deleted: the condition on which `get_node_detail` answers
/// with `NodeDeletedInPr` instead of the node.
pub proof fn law_overlay_deletion_hides_node(g: GraphEngineV, text: Seq<char>)
    requires
        resolves(g.nodes, text),
    ensures
        ({
            let after = GraphEngineV {
                deleted_in_overlay: g.deleted_in_overlay.insert(lower_hex_text(text)),
                ..g
            };
            &&& resolves(after.nodes, text)
            &&& after.deleted_in_overlay.contains(lower_hex_text(text))
            &&& after.nodes == g.nodes
            &&& after.edges == g.edges
        }),
{
}

/// Applying the same rename twice reroutes no more than applying it once.
pub proof fn law_reroute_idempotent(edges: Seq<EdgeV>, from: Seq<char>, to: Seq<char>)
    ensures
        reroute(reroute(edges, from, to), from, to) == reroute(edges, from, to),
{
    assert(reroute(reroute(edges, from, to), from, to) =~= reroute(edges, from, to));
}

proof fn lemma_escalation_split(entries: Seq<(NodeSummaryV, bool)>)
    ensures
        with_escalation(entries, false).len() + with_escalation(entries, true).len() == entries.len(),
    decreases entries.len(),
{
    if entries.len() > 0 {
        lemma_escalation_split(entries.drop_last());
    }
}

/// A subgraph summary keeps callers first, up to its budget, and callees in
/// what is left, so it never holds more neighbours than its budget; its high
/// and low buckets together hold exactly the neighbours kept, and it is
/// truncated exactly when neighbours were left out, `omitted_count` saying
/// how many.
pub proof fn law_subgraph_budget(
    nodes: Map<Seq<char>, NodeV>,
    edges: Seq<EdgeV>,
    q: NodeV,
    threshold: int,
    max_nodes: int,
)
    requires
        1 <= max_nodes,
    ensures
        ({
            let s = subgraph_of(nodes, edges, q, threshold, max_nodes);
            let kept = s.high_confidence_callers.len() + s.low_confidence_callers.len()
                + s.high_confidence_callees.len() + s.low_confidence_callees.len();
            let total = s.total_callers + s.total_callees;
            let kept_callers = if s.total_callers < max_nodes { s.total_callers } else { max_nodes };
            let kept_callees = if s.total_callees < max_nodes - kept_callers {
                s.total_callees
            } else {
                max_nodes - kept_callers
            };
            &&& s.high_confidence_callers.len() + s.low_confidence_callers.len() == kept_callers
            &&& s.high_confidence_callees.len() + s.low_confidence_callees.len() == kept_callees
            &&& kept <= max_nodes
            &&& kept <= total
            &&& s.truncated <==> total > max_nodes
            &&& s.truncated ==> s.omitted_count == Some(total - kept)
            &&& !s.truncated ==> s.omitted_count is None && kept == total
        }),
{
    let callers = caller_entries(nodes, edges, q.id, threshold);
    let callees = callee_entries(nodes, edges, q.id, threshold);
    let allowed_callers = if callers.len() < max_nodes {
        callers.len() as int
    } else {
        max_nodes
    };
    let remaining = max_nodes - allowed_callers;
    let allowed_callees = if callees.len() < remaining {
        callees.len() as int
    } else {
        remaining
    };
    lemma_escalation_split(callers.take(allowed_callers));
    lemma_escalation_split(callees.take(allowed_callees));
}

proof fn lemma_caller_flags(nodes: Map<Seq<char>, NodeV>, edges: Seq<EdgeV>, q: Seq<char>, threshold: int)
    ensures
        forall|i: int|
            0 <= i < caller_entries(nodes, edges, q, threshold).len() ==> (#[trigger] caller_entries(
                nodes,
                edges,
                q,
                threshold,
            )[i]).1 == (caller_entries(nodes, edges, q, threshold)[i].0.confidence < threshold),
    decreases edges.len(),
{
    if edges.len() > 0 {
        lemma_caller_flags(nodes, edges.drop_last(), q, threshold);
        let prev = caller_entries(nodes, edges.drop_last(), q, threshold);
        let cur = caller_entries(nodes, edges, q, threshold);
        assert forall|i: int| 0 <= i < cur.len() implies (#[trigger] cur[i]).1 == (cur[i].0.confidence
            < threshold) by {
            if i < prev.len() {
                assert(cur[i] == prev[i]);
            }
        }
    }
}

proof fn lemma_callee_flags(nodes: Map<Seq<char>, NodeV>, edges: Seq<EdgeV>, q: Seq<char>, threshold: int)
    ensures
        forall|i: int|
            0 <= i < callee_entries(nodes, edges, q, threshold).len() ==> (#[trigger] callee_entries(
                nodes,
                edges,
                q,
                threshold,
            )[i]).1 == (callee_entries(nodes, edges, q, threshold)[i].0.confidence < threshold),
    decreases edges.len(),
{
    if edges.len() > 0 {
        lemma_callee_flags(nodes, edges.drop_last(), q, threshold);
        let prev = callee_entries(nodes, edges.drop_last(), q, threshold);
        let cur = callee_entries(nodes, edges, q, threshold);
        assert forall|i: int| 0 <= i < cur.len() implies (#[trigger] cur[i]).1 == (cur[i].0.confidence
            < threshold) by {
            if i < prev.len() {
                assert(cur[i] == prev[i]);
            }
        }
    }
}

proof fn lemma_escalation_members(entries: Seq<(NodeSummaryV, bool)>, escalate: bool, threshold: int)
    requires
        forall|i: int|
            0 <= i < entries.len() ==> (#[trigger] entries[i]).1 == (entries[i].0.confidence
                < threshold),
    ensures
        forall|i: int|
            0 <= i < with_escalation(entries, escalate).len() ==> ((#[trigger] with_escalation(
                entries,
                escalate,
            )[i]).confidence < threshold) == escalate,
    decreases entries.len(),
{
    if entries.len() > 0 {
        let prev = entries.drop_last();
        assert forall|i: int| 0 <= i < prev.len() implies (#[trigger] prev[i]).1 == (
        prev[i].0.confidence < threshold) by {
            assert(prev[i] == entries[i]);
        }
        lemma_escalation_members(prev, escalate, threshold);
    }
}

/// High-confidence buckets hold only neighbours whose edge meets the
/// escalation threshold; low-confidence buckets only those below it.
pub proof fn law_subgraph_buckets_follow_threshold(
    nodes: Map<Seq<char>, NodeV>,
    edges: Seq<EdgeV>,
    q: NodeV,
    threshold: int,
    max_nodes: int,
)
    requires
        1 <= max_nodes,
    ensures
        ({
            let s = subgraph_of(nodes, edges, q, threshold, max_nodes);
            &&& forall|i: int|
                0 <= i < s.high_confidence_callers.len()
                    ==> #[trigger] s.high_confidence_callers[i].confidence >= threshold
            &&& forall|i: int|
                0 <= i < s.low_confidence_callers.len()
                    ==> #[trigger] s.low_confidence_callers[i].confidence < threshold
            &&& forall|i: int|
                0 <= i < s.high_confidence_callees.len()
                    ==> #[trigger] s.high_confidence_callees[i].confidence >= threshold
            &&& forall|i: int|
                0 <= i < s.low_confidence_callees.len()
                    ==> #[trigger] s.low_confidence_callees[i].confidence < threshold
        }),
{
    let callers = caller_entries(nodes, edges, q.id, threshold);
    let callees = callee_entries(nodes, edges, q.id, threshold);
    lemma_caller_flags(nodes, edges, q.id, threshold);
    lemma_callee_flags(nodes, edges, q.id, threshold);
    let allowed_callers = if callers.len() < max_nodes {
        callers.len() as int
    } else {
        max_nodes
    };
    let remaining = max_nodes - allowed_callers;
    let allowed_callees = if callees.len() < remaining {
        callees.len() as int
    } else {
        remaining
    };
    let kc = callers.take(allowed_callers);
    let ke = callees.take(allowed_callees);
    assert forall|i: int| 0 <= i < kc.len() implies (#[trigger] kc[i]).1 == (kc[i].0.confidence
        < threshold) by {
        assert(kc[i] == callers[i]);
    }
    assert forall|i: int| 0 <= i < ke.len() implies (#[trigger] ke[i]).1 == (ke[i].0.confidence
        < threshold) by {
        assert(ke[i] == callees[i]);
    }
    lemma_escalation_members(kc, false, threshold);
    lemma_escalation_members(kc, true, threshold);
    lemma_escalation_members(ke, false, threshold);
    lemma_escalation_members(ke, true, threshold);
}

/// Scanning a project yields what the schema accepts: every node's id is
/// the one its language and name give (so `upsert_node` takes it), and
/// every edge draft joins two scanned nodes, obeys the confidence rules and
/// lies within the calibrated ranges of the default configuration (so
/// `write_edge` takes it once its endpoints are stored and live). No two
/// drafts share source, target and kind, and the unresolved calls come in
/// one non-empty group per calling node. Every file yields at least its
/// module node, so no warning is ever raised.
pub proof fn law_scanned_project_fits_the_schema(
    files: Seq<SourceFile>,
    version: u64,
    config: ConfidenceConfig,
)
    requires
        config.type_inferred_range == (ConfidenceRange { min: 700_000, max: 900_000 }),
        config.heuristic_range == (ConfidenceRange { min: 300_000, max: 600_000 }),
    ensures
        ({
            let p = project_of(files, version);
            &&& forall|i: int|
                0 <= i < p.nodes.len() ==> node_id_consistent(#[trigger] p.nodes[i])
                    && p.nodes[i].language == "python"@ && p.nodes[i].introduced_at_version == version
            &&& forall|i: int|
                0 <= i < p.edge_drafts.len() ==> {
                    let d = #[trigger] p.edge_drafts[i];
                    &&& has_node_id(p.nodes, d.source)
                    &&& has_node_id(p.nodes, d.target)
                    &&& edge_confidence_ok(d.confidence, d.resolution)
                    &&& !out_of_calibrated_range(config, d.resolution, d.confidence)
                    &&& d.introduced_at_version == version
                }
            &&& drafts_unique(p.edge_drafts)
            &&& forall|i: int, j: int|
                0 <= i < j < p.unresolved_calls.len() ==> (#[trigger] p.unresolved_calls[i]).0
                    != (#[trigger] p.unresolved_calls[j]).0
            &&& forall|i: int|
                0 <= i < p.unresolved_calls.len() ==> has_node_id(
                    p.nodes,
                    (#[trigger] p.unresolved_calls[i]).0,
                ) && p.unresolved_calls[i].1.len() > 0
            &&& p.warnings.len() == 0
        }),
{
    lemma_project_fits(files, version);
    let p = project_of(files, version);
    assert forall|i: int| 0 <= i < p.nodes.len() implies node_id_consistent(#[trigger] p.nodes[i])
        && p.nodes[i].language == "python"@ && p.nodes[i].introduced_at_version == version by {
        assert(is_project_node(p.nodes[i], version));
    }
    assert forall|i: int| 0 <= i < p.edge_drafts.len() implies {
        let d = #[trigger] p.edge_drafts[i];
        &&& has_node_id(p.nodes, d.source)
        &&& has_node_id(p.nodes, d.target)
        &&& edge_confidence_ok(d.confidence, d.resolution)
        &&& !out_of_calibrated_range(config, d.resolution, d.confidence)
        &&& d.introduced_at_version == version
    } by {
        assert(is_project_draft(p.edge_drafts[i], p.nodes, version));
    }
}

// ---------------------------------------------------------------- calls by short name

/// A bare call resolved by its short name goes to a node that no other
/// node of the project shares its short name with: where two nodes carry
/// the called name, the call is never resolved by short name.
pub proof fn law_ambiguous_short_names_do_not_resolve(c: CallsiteV, nodes: Seq<NodeV>, i: int, j: int)
    requires
        0 <= i < j < nodes.len(),
        nodes[i].name == c.token,
        nodes[j].name == c.token,
    ensures
        match callsite_resolution_of(c, fqn_index(nodes), id_index(nodes), name_index(nodes)) {
            Some((t, kind, confidence, resolution)) => confidence != SHORT_NAME_CONFIDENCE as int,
            None => true,
        },
{
    lemma_ids_named_two(nodes, c.token, i, j);
}

/// Every call edge that a project scan drafts by short name points at a node
/// whose short name no other scanned node carries.
pub proof fn law_short_name_drafts_target_unique_names(files: Seq<SourceFile>, version: u64)
    ensures
        ({
            let p = project_of(files, version);
            forall|k: int|
                0 <= k < p.edge_drafts.len() && (#[trigger] p.edge_drafts[k]).confidence
                    == SHORT_NAME_CONFIDENCE as int ==> exists|i: int|
                    0 <= i < p.nodes.len() && #[trigger] p.nodes[i].id == p.edge_drafts[k].target
                        && forall|j: int|
                        0 <= j < p.nodes.len() && #[trigger] p.nodes[j].name == p.nodes[i].name
                            ==> j == i
        }),
{
    lemma_project_fits(files, version);
    let p = project_of(files, version);
    assert forall|k: int|
        0 <= k < p.edge_drafts.len() && (#[trigger] p.edge_drafts[k]).confidence == SHORT_NAME_CONFIDENCE as int
            implies is_uniquely_named(p.nodes, p.edge_drafts[k].target) by {
        assert(is_project_draft(p.edge_drafts[k], p.nodes, version));
    }
}

// ---------------------------------------------------------------- call tokens

/// The Python keywords that the call pattern also matches before a `(`.
pub open spec fn is_keyword_before_paren(t: Seq<char>) -> bool {
    t == "if"@ || t == "for"@ || t == "while"@ || t == "return"@ || t == "with"@ || t == "match"@
        || t == "except"@
}

/// The call tokens of a line are exactly the names the call pattern
/// captures, keywords left out: no token is `if`, `for`, `while`, `return`,
/// `with`, `match` or `except`, and every other captured name is a token.
pub proof fn law_call_tokens_are_captured_non_keywords(all: Seq<Seq<Option<Seq<char>>>>)
    ensures
        forall|i: int|
            0 <= i < call_tokens_in(all).len() ==> !is_keyword_before_paren(
                #[trigger] call_tokens_in(all)[i],
            ),
        forall|i: int|
            #![trigger call_tokens_in(all)[i]]
            0 <= i < call_tokens_in(all).len() ==> exists|k: int|
                0 <= k < all.len() && #[trigger] group_of(all[k], 1) == Some(call_tokens_in(all)[i]),
        forall|k: int|
            0 <= k < all.len() && (#[trigger] group_of(all[k], 1)) is Some && !is_keyword_before_paren(
                group_of(all[k], 1)->0,
            ) ==> call_tokens_in(all).contains(group_of(all[k], 1)->0),
{
    lemma_call_tokens_in(all);
    lemma_call_tokens_from_captures(all);
}

proof fn lemma_call_tokens_from_captures(all: Seq<Seq<Option<Seq<char>>>>)
    ensures
        forall|i: int|
            #![trigger call_tokens_in(all)[i]]
            0 <= i < call_tokens_in(all).len() ==> exists|k: int|
                0 <= k < all.len() && #[trigger] group_of(all[k], 1) == Some(call_tokens_in(all)[i]),
    decreases all.len(),
{
    if all.len() > 0 {
        let prev = all.drop_last();
        lemma_call_tokens_from_captures(prev);
        let f = |caps: Seq<Option<Seq<char>>>| call_token_of(caps);
        let cur = call_tokens_in(all);
        let pt = call_tokens_in(prev);
        assert(cur == match f(all.last()) {
            Some(b) => pt.push(b),
            None => pt,
        });
        assert forall|i: int| #![trigger cur[i]] 0 <= i < cur.len() implies exists|k: int|
            0 <= k < all.len() && #[trigger] group_of(all[k], 1) == Some(cur[i]) by {
            if i < pt.len() {
                assert(cur[i] == pt[i]);
                let k = choose|k: int| 0 <= k < prev.len() && #[trigger] group_of(prev[k], 1) == Some(pt[i]);
                assert(all[k] == prev[k]);
            } else {
                let k = all.len() - 1;
                assert(group_of(all[k], 1) == Some(cur[i]));
            }
        }
    }
}

/// No call site that the scan of a file records has a keyword for its token:
/// `except (A, B):` and the like are not calls.
pub proof fn law_scanned_call_sites_are_not_keywords(ctx: ScanCtx)
    ensures
        forall|i: int|
            0 <= i < parsed_file_of(ctx).callsites.len() ==> !is_keyword_before_paren(
                (#[trigger] parsed_file_of(ctx).callsites[i]).token,
            ),
{
    lemma_parsed_file_invariant(ctx);
    let f = parsed_file_of(ctx);
    let st = ScanV { nodes: f.nodes, callsites: f.callsites, imports: f.imports, aliases: Seq::empty(), open: Seq::empty() };
    assert forall|i: int| 0 <= i < f.callsites.len() implies !is_keyword_before_paren(
        (#[trigger] f.callsites[i]).token,
    ) by {
        assert(st.callsites[i] == f.callsites[i]);
        assert(!is_control_keyword(st.callsites[i].token));
    }
}

// ---------------------------------------------------------------- subgraph counts

/// A subgraph counts as callers all edges into the queried node whose source
/// is stored, and as callees all edges out of it whose target is stored,
/// whatever the edges' kind.
pub proof fn law_subgraph_counts_edges_of_every_kind(
    nodes: Map<Seq<char>, NodeV>,
    edges: Seq<EdgeV>,
    q: NodeV,
    threshold: int,
    max_nodes: int,
)
    ensures
        subgraph_of(nodes, edges, q, threshold, max_nodes).total_callers == edges.filter(
            |e: EdgeV| e.target == q.id && nodes.contains_key(e.source),
        ).len(),
        subgraph_of(nodes, edges, q, threshold, max_nodes).total_callees == edges.filter(
            |e: EdgeV| e.source == q.id && nodes.contains_key(e.target),
        ).len(),
{
    lemma_caller_count(nodes, edges, q.id, threshold);
    lemma_callee_count(nodes, edges, q.id, threshold);
}

proof fn lemma_caller_count(nodes: Map<Seq<char>, NodeV>, edges: Seq<EdgeV>, q: Seq<char>, threshold: int)
    ensures
        caller_entries(nodes, edges, q, threshold).len() == edges.filter(
            |e: EdgeV| e.target == q && nodes.contains_key(e.source),
        ).len(),
    decreases edges.len(),
{
    reveal(Seq::filter);
    if edges.len() > 0 {
        lemma_caller_count(nodes, edges.drop_last(), q, threshold);
    }
}

proof fn lemma_callee_count(nodes: Map<Seq<char>, NodeV>, edges: Seq<EdgeV>, q: Seq<char>, threshold: int)
    ensures
        callee_entries(nodes, edges, q, threshold).len() == edges.filter(
            |e: EdgeV| e.source == q && nodes.contains_key(e.target),
        ).len(),
    decreases edges.len(),
{
    reveal(Seq::filter);
    if edges.len() > 0 {
        lemma_callee_count(nodes, edges.drop_last(), q, threshold);
    }
}

// ---------------------------------------------------------------- applied renames

/// An applied rename deprecates the old node for one sync, names the
/// candidate's id as its successor and the candidate's name as its new name,
/// keeps the old node otherwise, and sends every edge that pointed at the
/// old node to the candidate.
pub proof fn law_applied_rename_names_its_successor(g: GraphEngineV, dk: Seq<char>, ck: Seq<char>)
    requires
        graph_consistent(g),
        g.nodes.contains_key(dk),
        g.nodes.contains_key(ck),
    ensures
        ({
            let after = rename_applied(g, dk, ck);
            &&& after.nodes[dk].status == NodeStatusV::Deprecated(
                DeprecatedMetadataV {
                    expires_in_syncs: 1,
                    successor_id: Some(g.nodes[ck].id),
                    reason: DeprecationReasonV::RenamedTo { new_fqn: g.nodes[ck].fqn },
                },
            )
            &&& after.nodes[dk].id == g.nodes[dk].id
            &&& after.nodes[dk].fqn == g.nodes[dk].fqn
            &&& after.nodes.dom() == g.nodes.dom()
            &&& after.edges.len() == g.edges.len()
            &&& forall|i: int|
                0 <= i < g.edges.len() && g.edges[i].target == dk ==> (#[trigger] after.edges[i]).target
                    == g.nodes[ck].id
            &&& dk != ck ==> after.nodes[ck] == g.nodes[ck]
        }),
{
    let after = rename_applied(g, dk, ck);
    assert(after.nodes.dom() =~= g.nodes.dom());
}

// ---------------------------------------------------------------- parameter names

/// The number of parameters a signature lists (none for an untyped one).
pub open spec fn listed_param_count(s: SignatureV) -> int {
    match s {
        SignatureV::Typed { params, .. } => params.len() as int,
        SignatureV::PartiallyTyped { params, .. } => params.len() as int,
        SignatureV::Untyped { .. } => 0,
    }
}

/// The name of the `i`-th listed parameter.
pub open spec fn listed_param_name(s: SignatureV, i: int) -> Seq<char> {
    match s {
        SignatureV::Typed { params, .. } => params[i].name,
        SignatureV::PartiallyTyped { params, .. } => params[i].name,
        SignatureV::Untyped { .. } => Seq::empty(),
    }
}

/// Rename evidence counts parameter names as matching exactly when both
/// signatures list their parameters, list as many, and name each alike, in
/// order: two signatures of one arity with different names do not match.
pub proof fn law_param_names_match_compares_names(deprecated: NodeV, candidate: NodeV)
    ensures
        rename_evidence_of(deprecated, candidate).param_names_match <==> {
            let a = deprecated.signature;
            let b = candidate.signature;
            &&& (a is Typed || a is PartiallyTyped)
            &&& (b is Typed || b is PartiallyTyped)
            &&& listed_param_count(a) == listed_param_count(b)
            &&& forall|i: int|
                0 <= i < listed_param_count(a) ==> #[trigger] listed_param_name(a, i) == listed_param_name(b, i)
        },
{
    let a = deprecated.signature;
    let b = candidate.signature;
    if (a is Typed || a is PartiallyTyped) && (b is Typed || b is PartiallyTyped) {
        let na = param_names_of(a)->0;
        let nb = param_names_of(b)->0;
        assert(na.len() == listed_param_count(a));
        assert(nb.len() == listed_param_count(b));
        assert forall|i: int| 0 <= i < na.len() implies na[i] == listed_param_name(a, i) by {}
        assert forall|i: int| 0 <= i < nb.len() implies nb[i] == listed_param_name(b, i) by {}
        if listed_param_count(a) == listed_param_count(b) && forall|i: int|
            0 <= i < listed_param_count(a) ==> #[trigger] listed_param_name(a, i) == listed_param_name(b, i) {
            assert(na =~= nb);
        }
        if na == nb {
            assert forall|i: int| 0 <= i < listed_param_count(a) implies #[trigger] listed_param_name(a, i)
                == listed_param_name(b, i) by {
                assert(na[i] == nb[i]);
            }
        }
    }
}

} // verus!
