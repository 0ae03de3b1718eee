//! The graph engine: nodes keyed by id, edges that every write checks,
//! overlay deletions, versions, rename application and subgraph queries.

use vstd::hash_map::StringHashMap;
use vstd::hash_set::StringHashSet;
use vstd::prelude::*;

use crate::errors::{find_callers_hint, SchemaError, ToolCallError};
use crate::rename::{rename_candidate_of, RenameCandidate, AUTO_ACCEPT_THRESHOLD};
use crate::schema::{
    edge_confidence_ok, is_canonical_id, is_node_id_text, lower_hex_text, node_id_consistent, ConfidenceConfig,
    DeprecatedMetadata, DeprecatedMetadataV, DeprecationReason, DeprecationReasonV, Edge, EdgeDraft,
    EdgeV, GraphSnapshot, GraphVersion, Node, NodeId, NodeStatus, NodeStatusV,
    NodeSummary, NodeSummaryV, NodeV, SubgraphSummary, CONFIDENCE_SCALE,
    is_exact_resolution,
};
use crate::validator::{calibrated_range, out_of_calibrated_range, SchemaValidator};

verus! {

broadcast use crate::schema::lemma_edge_view;

/// The largest subgraph that a query may return.
pub const SUBGRAPH_HARD_CAP: usize = 25;

/// Beyond this many neighbours a subgraph query is refused outright.
pub const SUBGRAPH_REFUSAL_LIMIT: usize = 50;

/// The abstract state of the engine.
pub struct GraphEngineV {
    pub nodes: Map<Seq<char>, NodeV>,
    pub edges: Seq<EdgeV>,
    pub deleted_in_overlay: Set<Seq<char>>,
    pub current_version: u64,
    pub confidence_config: ConfidenceConfig,
}

/// The graph's own invariant: every node is stored under its id, every id is
/// the one its language and name give, every edge joins two stored nodes and
/// obeys the confidence rules, and the edges number at most half of
/// `usize::MAX`, below what a vector of edges can hold at all.
pub open spec fn graph_consistent(g: GraphEngineV) -> bool {
    &&& forall|k: Seq<char>|
        #![trigger g.nodes[k]]
        g.nodes.contains_key(k) ==> g.nodes[k].id == k && node_id_consistent(g.nodes[k])
            && is_canonical_id(k)
    &&& forall|i: int|
        #![trigger g.edges[i]]
        0 <= i < g.edges.len() ==> {
            &&& g.nodes.contains_key(g.edges[i].source)
            &&& g.nodes.contains_key(g.edges[i].target)
            &&& edge_confidence_ok(g.edges[i].confidence, g.edges[i].resolution)
        }
    &&& g.current_version >= 1
    &&& g.edges.len() <= usize::MAX / 2
}

/// Whether a requested id names a stored node: it must be a well-formed id,
/// and is looked up in lower case.
pub open spec fn resolves(nodes: Map<Seq<char>, NodeV>, text: Seq<char>) -> bool {
    is_node_id_text(text) && nodes.contains_key(lower_hex_text(text))
}

/// The id that an unknown-node error reports: the lower-case id where the
/// request was well-formed, the request itself otherwise.
pub open spec fn requested_id_of(text: Seq<char>) -> Seq<char> {
    if is_node_id_text(text) {
        lower_hex_text(text)
    } else {
        text
    }
}

pub open spec fn is_unknown_node_error(e: ToolCallError, text: Seq<char>) -> bool {
    e matches ToolCallError::UnknownNode { requested_id, suggestion } && requested_id@
        == requested_id_of(text) && suggestion@ == find_callers_hint()
}

pub open spec fn deleted_in_pr_hint() -> Seq<char> {
    "Flag callers of this node as potentially broken by the PR."@
}

pub open spec fn too_large_hint() -> Seq<char> {
    "Reduce traversal depth or review a more specific entry point."@
}

/// The edge that a draft describes.
pub open spec fn draft_edge(d: EdgeDraft) -> EdgeV {
    EdgeV {
        source: d.source@,
        target: d.target@,
        kind: d.kind,
        confidence: d.confidence as int,
        resolution: d.resolution,
        introduced_at_version: d.introduced_at_version@,
    }
}

/// The summary of a neighbour reached through an edge.
pub open spec fn summary_of(n: NodeV, e: EdgeV) -> NodeSummaryV {
    NodeSummaryV {
        id: n.id,
        fqn: n.fqn,
        kind: n.kind,
        confidence: e.confidence,
        resolution: e.resolution,
        source_available: !(n.status is Deprecated),
    }
}

/// The callers of `q` along `edges`, in edge order, each with whether its
/// edge needs escalation under `threshold`.
pub open spec fn caller_entries(
    nodes: Map<Seq<char>, NodeV>,
    edges: Seq<EdgeV>,
    q: Seq<char>,
    threshold: int,
) -> Seq<(NodeSummaryV, bool)>
    decreases edges.len(),
{
    if edges.len() == 0 {
        Seq::empty()
    } else {
        let prev = caller_entries(nodes, edges.drop_last(), q, threshold);
        let e = edges.last();
        if e.target == q && nodes.contains_key(e.source) {
            prev.push((summary_of(nodes[e.source], e), e.confidence < threshold))
        } else {
            prev
        }
    }
}

/// The callees of `q` along `edges`, in edge order.
pub open spec fn callee_entries(
    nodes: Map<Seq<char>, NodeV>,
    edges: Seq<EdgeV>,
    q: Seq<char>,
    threshold: int,
) -> Seq<(NodeSummaryV, bool)>
    decreases edges.len(),
{
    if edges.len() == 0 {
        Seq::empty()
    } else {
        let prev = callee_entries(nodes, edges.drop_last(), q, threshold);
        let e = edges.last();
        if e.source == q && nodes.contains_key(e.target) {
            prev.push((summary_of(nodes[e.target], e), e.confidence < threshold))
        } else {
            prev
        }
    }
}

/// The summaries whose escalation flag is `escalate`, in order.
pub open spec fn with_escalation(entries: Seq<(NodeSummaryV, bool)>, escalate: bool) -> Seq<
    NodeSummaryV,
>
    decreases entries.len(),
{
    if entries.len() == 0 {
        Seq::empty()
    } else {
        let prev = with_escalation(entries.drop_last(), escalate);
        if entries.last().1 == escalate {
            prev.push(entries.last().0)
        } else {
            prev
        }
    }
}

pub struct SubgraphSummaryV {
    pub queried_node_id: Seq<char>,
    pub queried_node_fqn: Seq<char>,
    pub total_callers: int,
    pub total_callees: int,
    pub high_confidence_callers: Seq<NodeSummaryV>,
    pub low_confidence_callers: Seq<NodeSummaryV>,
    pub high_confidence_callees: Seq<NodeSummaryV>,
    pub low_confidence_callees: Seq<NodeSummaryV>,
    pub truncated: bool,
    pub omitted_count: Option<int>,
}

pub open spec fn summaries_view(v: Vec<NodeSummary>) -> Seq<NodeSummaryV> {
    v@.map_values(|s: NodeSummary| s@)
}

pub open spec fn subgraph_view(s: SubgraphSummary) -> SubgraphSummaryV {
    SubgraphSummaryV {
        queried_node_id: s.queried_node_id@,
        queried_node_fqn: s.queried_node_fqn@,
        total_callers: s.total_callers as int,
        total_callees: s.total_callees as int,
        high_confidence_callers: summaries_view(s.high_confidence_callers),
        low_confidence_callers: summaries_view(s.low_confidence_callers),
        high_confidence_callees: summaries_view(s.high_confidence_callees),
        low_confidence_callees: summaries_view(s.low_confidence_callees),
        truncated: s.truncated,
        omitted_count: match s.omitted_count {
            Some(c) => Some(c as int),
            None => None,
        },
    }
}

/// The subgraph around `q`: callers fill the node budget first, callees
/// take what is left, and each side is split into high-confidence and
/// escalation-requiring neighbours. The totals count before truncation.
pub open spec fn subgraph_of(
    nodes: Map<Seq<char>, NodeV>,
    edges: Seq<EdgeV>,
    q: NodeV,
    threshold: int,
    max_nodes: int,
) -> SubgraphSummaryV {
    let callers = caller_entries(nodes, edges, q.id, threshold);
    let callees = callee_entries(nodes, edges, q.id, threshold);
    let total = callers.len() + callees.len();
    let omitted = if total > max_nodes {
        total - max_nodes
    } else {
        0
    };
    let allowed_callers = if callers.len() < max_nodes {
        callers.len() as int
    } else {
        max_nodes
    };
    let remaining = max_nodes - allowed_callers;
    let allowed_callees = if callees.len() < remaining {
        callees.len() as int
    } else {
        remaining
    };
    let kept_callers = callers.take(allowed_callers);
    let kept_callees = callees.take(allowed_callees);
    SubgraphSummaryV {
        queried_node_id: q.id,
        queried_node_fqn: q.fqn,
        total_callers: callers.len() as int,
        total_callees: callees.len() as int,
        high_confidence_callers: with_escalation(kept_callers, false),
        low_confidence_callers: with_escalation(kept_callers, true),
        high_confidence_callees: with_escalation(kept_callees, false),
        low_confidence_callees: with_escalation(kept_callees, true),
        truncated: omitted > 0,
        omitted_count: if omitted > 0 {
            Some(omitted)
        } else {
            None
        },
    }
}

/// The status a node takes when a rename to `successor` is applied.
pub open spec fn renamed_status(successor: Seq<char>, new_fqn: Seq<char>) -> NodeStatusV {
    NodeStatusV::Deprecated(
        DeprecatedMetadataV {
            expires_in_syncs: 1,
            successor_id: Some(successor),
            reason: DeprecationReasonV::RenamedTo { new_fqn },
        },
    )
}

/// Every edge into `from` rerouted to `to`.
pub open spec fn reroute(edges: Seq<EdgeV>, from: Seq<char>, to: Seq<char>) -> Seq<EdgeV> {
    edges.map_values(|e: EdgeV| if e.target == from { EdgeV { target: to, ..e } } else { e })
}

/// The engine after the rename of the node stored under `dk` to the one
/// stored under `ck` is applied: edges into `dk` go to `ck`, and `dk` is
/// deprecated in favour of `ck`.
pub open spec fn rename_applied(g: GraphEngineV, dk: Seq<char>, ck: Seq<char>) -> GraphEngineV {
    GraphEngineV {
        nodes: g.nodes.insert(dk, NodeV { status: renamed_status(ck, g.nodes[ck].fqn), ..g.nodes[dk] }),
        edges: reroute(g.edges, dk, ck),
        ..g
    }
}

pub struct GraphEngine {
    nodes: StringHashMap<Node>,
    edges: Vec<Edge>,
    deleted_in_overlay: StringHashSet,
    current_version: GraphVersion,
    validator: SchemaValidator,
}

impl View for GraphEngine {
    type V = GraphEngineV;

    closed spec fn view(&self) -> GraphEngineV {
        GraphEngineV {
            nodes: self.nodes@.map_values(|n: Node| n@),
            edges: self.edges@.map_values(|e: Edge| e@),
            deleted_in_overlay: self.deleted_in_overlay@,
            current_version: self.current_version@,
            confidence_config: self.validator@,
        }
    }
}

fn find_callers_suggestion() -> (r: String)
    ensures
        r@ == find_callers_hint(),
{
    String::from_str("Use find_callers('<name>') to search by human-readable name.")
}

fn summary_for(node: &Node, edge: &Edge) -> (r: NodeSummary)
    ensures
        r@ == summary_of(node@, edge@),
{
    NodeSummary {
        id: node.id.clone(),
        fqn: node.fqn.clone(),
        kind: node.kind.clone(),
        confidence: edge.confidence(),
        resolution: edge.resolution,
        source_available: !node.status.is_deprecated(),
    }
}

impl GraphEngine {
    /// The engine's invariant.
    pub open spec fn wf(&self) -> bool {
        graph_consistent(self@)
    }

    pub fn new(confidence_config: ConfidenceConfig) -> (r: Self)
        ensures
            r.wf(),
            r@ == (GraphEngineV {
                nodes: Map::empty(),
                edges: Seq::empty(),
                deleted_in_overlay: Set::empty(),
                current_version: 1,
                confidence_config,
            }),
    {
        let r = GraphEngine {
            nodes: StringHashMap::new(),
            edges: Vec::new(),
            deleted_in_overlay: StringHashSet::new(),
            current_version: GraphVersion::initial(),
            validator: SchemaValidator::new(confidence_config),
        };
        assert(r@.nodes =~= Map::empty());
        assert(r@.edges =~= Seq::empty());
        r
    }

    pub fn confidence_config(&self) -> (r: &ConfidenceConfig)
        ensures
            *r == self@.confidence_config,
    {
        self.validator.confidence_config()
    }

    pub fn set_confidence_config(&mut self, confidence_config: ConfidenceConfig)
        requires
            old(self).wf(),
        ensures
            final(self).wf(),
            final(self)@ == (GraphEngineV { confidence_config, ..old(self)@ }),
    {
        self.validator.set_confidence_config(confidence_config);
    }

    pub fn current_version(&self) -> (r: GraphVersion)
        ensures
            r@ == self@.current_version,
    {
        self.current_version
    }

    pub fn increment_version(&mut self) -> (r: GraphVersion)
        requires
            old(self).wf(),
            old(self)@.current_version < u64::MAX,
        ensures
            final(self).wf(),
            r@ == old(self)@.current_version + 1,
            final(self)@ == (GraphEngineV { current_version: r@, ..old(self)@ }),
    {
        self.current_version = self.current_version.increment();
        self.current_version
    }

    /// The stored edges, in write order.
    pub fn edges(&self) -> (r: &Vec<Edge>)
        ensures
            r@.map_values(|e: Edge| e@) == self@.edges,
    {
        &self.edges
    }

    /// The stored node with this id, if any.
    pub fn node(&self, id: &NodeId) -> (r: Option<&Node>)
        ensures
            match r {
                Some(n) => self@.nodes.contains_key(id@) && n@ == self@.nodes[id@],
                None => !self@.nodes.contains_key(id@),
            },
    {
        self.nodes.get(id.as_str())
    }

    /// Inserts or replaces a node, after checking that its id matches its
    /// language and fully qualified name.
    pub fn upsert_node(&mut self, node: Node) -> (r: Result<Node, SchemaError>)
        requires
            old(self).wf(),
        ensures
            final(self).wf(),
            node_id_consistent(node@) ==> (r matches Ok(n) && n@ == node@ && final(self)@ == (
            GraphEngineV { nodes: old(self)@.nodes.insert(node@.id, node@), ..old(self)@ })),
            !node_id_consistent(node@) ==> (r matches Err(
                SchemaError::NodeIdMismatch { provided, expected },
            ) && provided == node.id && expected@ == crate::schema::node_id_of(
                node@.language,
                node@.fqn,
            ) && final(self)@ == old(self)@),
    {
        let node = match node.validate() {
            Ok(n) => n,
            Err(e) => {
                return Err(e);
            },
        };
        let stored = node.clone();
        self.nodes.insert(node.id.to_text(), stored);
        proof {
            assert(self@.nodes =~= old(self)@.nodes.insert(node@.id, node@));
        }
        Ok(node)
    }

    /// Writes an edge after the schema's checks: the confidence rules, both
    /// endpoints present, the calibrated range, and a live target. The edge
    /// list must hold fewer than half of `usize::MAX` edges; `Vec::push`
    /// panics before that, once the list would pass `isize::MAX` bytes.
    pub fn write_edge(&mut self, draft: EdgeDraft) -> (r: Result<Edge, SchemaError>)
        requires
            old(self).wf(),
            old(self)@.edges.len() < usize::MAX / 2,
        ensures
            final(self).wf(),
            r is Err ==> final(self)@ == old(self)@,
            !(0 <= draft.confidence <= CONFIDENCE_SCALE) ==> r == Err::<Edge, SchemaError>(
                SchemaError::InvalidConfidence(draft.confidence),
            ),
            (0 <= draft.confidence <= CONFIDENCE_SCALE) && is_exact_resolution(draft.resolution)
                && draft.confidence != CONFIDENCE_SCALE ==> r == Err::<Edge, SchemaError>(
                SchemaError::ConfidenceMismatch {
                    resolution: draft.resolution,
                    confidence: draft.confidence,
                },
            ),
            edge_confidence_ok(draft.confidence as int, draft.resolution)
                && !old(self)@.nodes.contains_key(draft.source@) ==> (r matches Err(
                SchemaError::MissingNode(s),
            ) && s@ == draft.source@),
            edge_confidence_ok(draft.confidence as int, draft.resolution) && old(
                self,
            )@.nodes.contains_key(draft.source@) && !old(self)@.nodes.contains_key(draft.target@)
                ==> (r matches Err(SchemaError::MissingNode(s)) && s@ == draft.target@),
            edge_confidence_ok(draft.confidence as int, draft.resolution) && old(
                self,
            )@.nodes.contains_key(draft.source@) && old(self)@.nodes.contains_key(draft.target@)
                && out_of_calibrated_range(
                old(self)@.confidence_config,
                draft.resolution,
                draft.confidence as int,
            ) ==> (r matches Err(
                SchemaError::ConfidenceOutOfCalibratedRange { resolution, confidence, min, max },
            ) && resolution == draft.resolution && confidence == draft.confidence
                && calibrated_range(old(self)@.confidence_config, draft.resolution) == Some(
                crate::schema::ConfidenceRange { min, max },
            )),
            edge_confidence_ok(draft.confidence as int, draft.resolution) && old(
                self,
            )@.nodes.contains_key(draft.source@) && old(self)@.nodes.contains_key(draft.target@)
                && !out_of_calibrated_range(
                old(self)@.confidence_config,
                draft.resolution,
                draft.confidence as int,
            ) && old(self)@.nodes[draft.target@].status is Deprecated ==> (r matches Err(
                SchemaError::EdgeTargetsDeprecatedNode { target },
            ) && target@ == draft.target@),
            edge_confidence_ok(draft.confidence as int, draft.resolution) && old(
                self,
            )@.nodes.contains_key(draft.source@) && old(self)@.nodes.contains_key(draft.target@)
                && !out_of_calibrated_range(
                old(self)@.confidence_config,
                draft.resolution,
                draft.confidence as int,
            ) && !(old(self)@.nodes[draft.target@].status is Deprecated) ==> (r matches Ok(e)
                && e@ == draft_edge(draft) && final(self)@ == (GraphEngineV {
                edges: old(self)@.edges.push(draft_edge(draft)),
                ..old(self)@
            })),
    {
        let edge = match Edge::new(
            draft.source.clone(),
            draft.target.clone(),
            draft.kind,
            draft.confidence,
            draft.resolution,
            draft.introduced_at_version,
        ) {
            Ok(e) => e,
            Err(e) => {
                return Err(e);
            },
        };
        if !self.nodes.contains_key(draft.source.as_str()) {
            return Err(SchemaError::MissingNode(draft.source.to_text()));
        }
        let target_node = match self.nodes.get(draft.target.as_str()) {
            Some(n) => n,
            None => {
                return Err(SchemaError::MissingNode(draft.target.to_text()));
            },
        };
        match self.validator.validate_edge_write(&edge, target_node) {
            Ok(()) => {},
            Err(e) => {
                return Err(e);
            },
        }
        let stored = edge.clone();
        self.edges.push(stored);
        proof {
            assert(self@.edges =~= old(self)@.edges.push(draft_edge(draft)));
        }
        Ok(edge)
    }

    /// Looks a requested id up; an ill-formed or unknown id is an
    /// unknown-node error.
    fn resolve_node_or_error(&self, node_id: &str) -> (r: Result<&Node, ToolCallError>)
        requires
            self.wf(),
        ensures
            resolves(self@.nodes, node_id@) ==> (r matches Ok(n) && n@ == self@.nodes[lower_hex_text(node_id@)]),
            !resolves(self@.nodes, node_id@) ==> (r matches Err(e) && is_unknown_node_error(e, node_id@)),
    {
        let id = match NodeId::from_hex(String::from_str(node_id)) {
            Ok(id) => id,
            Err(_) => {
                return Err(
                    ToolCallError::UnknownNode {
                        requested_id: String::from_str(node_id),
                        suggestion: find_callers_suggestion(),
                    },
                );
            },
        };
        match self.nodes.get(id.as_str()) {
            Some(n) => Ok(n),
            None => Err(
                ToolCallError::UnknownNode {
                    requested_id: id.to_text(),
                    suggestion: find_callers_suggestion(),
                },
            ),
        }
    }

    /// Marks a node deprecated with the given metadata, stamping it with the
    /// current version.
    pub fn deprecate_node(&mut self, node_id: &str, metadata: DeprecatedMetadata) -> (r: Result<
        Node,
        SchemaError,
    >)
        requires
            old(self).wf(),
        ensures
            final(self).wf(),
            r is Err ==> final(self)@ == old(self)@,
            !is_node_id_text(node_id@) ==> (r matches Err(SchemaError::InvalidNodeId(v)) && v@
                == node_id@),
            is_node_id_text(node_id@) && !old(self)@.nodes.contains_key(lower_hex_text(node_id@))
                ==> (r matches Err(SchemaError::MissingNode(v)) && v@ == lower_hex_text(node_id@)),
            resolves(old(self)@.nodes, node_id@) ==> ({
                let k = lower_hex_text(node_id@);
                let updated = NodeV {
                    status: NodeStatusV::Deprecated(metadata@),
                    introduced_at_version: old(self)@.current_version,
                    ..old(self)@.nodes[k]
                };
                &&& r matches Ok(n) && n@ == updated
                &&& final(self)@ == (GraphEngineV {
                    nodes: old(self)@.nodes.insert(k, updated),
                    ..old(self)@
                })
            }),
    {
        let id = match NodeId::from_hex(String::from_str(node_id)) {
            Ok(id) => id,
            Err(e) => {
                return Err(e);
            },
        };
        let mut node = match self.nodes.get(id.as_str()) {
            Some(n) => n.clone(),
            None => {
                return Err(SchemaError::MissingNode(id.to_text()));
            },
        };
        node.status = NodeStatus::Deprecated(metadata);
        node.introduced_at_version = self.current_version;
        let stored = node.clone();
        self.nodes.insert(id.to_text(), stored);
        proof {
            let k = lower_hex_text(node_id@);
            assert(self@.nodes =~= old(self)@.nodes.insert(k, node@));
        }
        Ok(node)
    }

    /// Records that the PR overlay deletes a node.
    pub fn mark_node_deleted_in_overlay(&mut self, node_id: &str) -> (r: Result<(), ToolCallError>)
        requires
            old(self).wf(),
        ensures
            final(self).wf(),
            !resolves(old(self)@.nodes, node_id@) ==> (r matches Err(e) && is_unknown_node_error(
                e,
                node_id@,
            ) && final(self)@ == old(self)@),
            resolves(old(self)@.nodes, node_id@) ==> (r is Ok && final(self)@ == (GraphEngineV {
                deleted_in_overlay: old(self)@.deleted_in_overlay.insert(lower_hex_text(node_id@)),
                ..old(self)@
            })),
    {
        let id = match NodeId::from_hex(String::from_str(node_id)) {
            Ok(id) => id,
            Err(_) => {
                return Err(
                    ToolCallError::UnknownNode {
                        requested_id: String::from_str(node_id),
                        suggestion: find_callers_suggestion(),
                    },
                );
            },
        };
        if !self.nodes.contains_key(id.as_str()) {
            return Err(
                ToolCallError::UnknownNode {
                    requested_id: id.to_text(),
                    suggestion: find_callers_suggestion(),
                },
            );
        }
        self.deleted_in_overlay.insert(id.to_text());
        Ok(())
    }

    /// A snapshot of the current baseline for a PR.
    pub fn create_snapshot(&self, pr_identifier: String) -> (r: GraphSnapshot)
        ensures
            r.baseline_version@ == self@.current_version,
            r.current_baseline_version@ == self@.current_version,
            r.pr_identifier == pr_identifier,
    {
        GraphSnapshot {
            baseline_version: self.current_version,
            current_baseline_version: self.current_version,
            pr_identifier,
        }
    }

    /// Weighs the evidence that `candidate_node_id` renames
    /// `deprecated_node_id`.
    pub fn detect_rename(&self, deprecated_node_id: &str, candidate_node_id: &str) -> (r: Result<
        RenameCandidate,
        ToolCallError,
    >)
        requires
            self.wf(),
        ensures
            !resolves(self@.nodes, deprecated_node_id@) ==> (r matches Err(e)
                && is_unknown_node_error(e, deprecated_node_id@)),
            resolves(self@.nodes, deprecated_node_id@) && !resolves(
                self@.nodes,
                candidate_node_id@,
            ) ==> (r matches Err(e) && is_unknown_node_error(e, candidate_node_id@)),
            resolves(self@.nodes, deprecated_node_id@) && resolves(self@.nodes, candidate_node_id@)
                ==> (r matches Ok(c) && c@ == rename_candidate_of(
                self@.nodes[lower_hex_text(deprecated_node_id@)],
                self@.nodes[lower_hex_text(candidate_node_id@)],
            )),
    {
        let deprecated = match self.resolve_node_or_error(deprecated_node_id) {
            Ok(n) => n,
            Err(e) => {
                return Err(e);
            },
        };
        let candidate = match self.resolve_node_or_error(candidate_node_id) {
            Ok(n) => n,
            Err(e) => {
                return Err(e);
            },
        };
        Ok(RenameCandidate::from_nodes(deprecated, candidate))
    }

    /// Detects a rename and, where it is confident enough to be accepted
    /// automatically, reroutes every edge into the deprecated node to the
    /// candidate and deprecates the old node in favour of the new one.
    pub fn apply_rename(&mut self, deprecated_node_id: &str, candidate_node_id: &str) -> (r: Result<
        RenameCandidate,
        ToolCallError,
    >)
        requires
            old(self).wf(),
        ensures
            final(self).wf(),
            r is Err ==> final(self)@ == old(self)@,
            !resolves(old(self)@.nodes, deprecated_node_id@) ==> (r matches Err(e)
                && is_unknown_node_error(e, deprecated_node_id@)),
            resolves(old(self)@.nodes, deprecated_node_id@) && !resolves(
                old(self)@.nodes,
                candidate_node_id@,
            ) ==> (r matches Err(e) && is_unknown_node_error(e, candidate_node_id@)),
            resolves(old(self)@.nodes, deprecated_node_id@) && resolves(
                old(self)@.nodes,
                candidate_node_id@,
            ) ==> ({
                let dk = lower_hex_text(deprecated_node_id@);
                let ck = lower_hex_text(candidate_node_id@);
                let c = rename_candidate_of(old(self)@.nodes[dk], old(self)@.nodes[ck]);
                &&& r matches Ok(cand) && cand@ == c
                &&& c.confidence >= AUTO_ACCEPT_THRESHOLD ==> final(self)@ == rename_applied(
                    old(self)@,
                    dk,
                    ck,
                )
                &&& c.confidence < AUTO_ACCEPT_THRESHOLD ==> final(self)@ == old(self)@
            }),
    {
        let candidate = match self.detect_rename(deprecated_node_id, candidate_node_id) {
            Ok(c) => c,
            Err(e) => {
                return Err(e);
            },
        };
        if candidate.auto_accept() {
            let ghost old_edges = self@.edges;
            let ghost dk = candidate.deprecated_node_id@;
            let ghost ck = candidate.candidate_node_id@;
            let mut i: usize = 0;
            while i < self.edges.len()
                invariant
                    i <= self.edges@.len(),
                    self.edges@.len() == old_edges.len(),
                    self.nodes == old(self).nodes,
                    self.deleted_in_overlay == old(self).deleted_in_overlay,
                    self.current_version == old(self).current_version,
                    self.validator == old(self).validator,
                    old_edges == old(self)@.edges,
                    dk == candidate.deprecated_node_id@,
                    ck == candidate.candidate_node_id@,
                    forall|j: int|
                        0 <= j < i ==> (#[trigger] self.edges@[j])@ == reroute(old_edges, dk, ck)[j],
                    forall|j: int| i <= j < self.edges@.len() ==> (#[trigger] self.edges@[j])@ == old_edges[j],
                decreases self.edges@.len() - i,
            {
                if self.edges[i].target.same_as(&candidate.deprecated_node_id) {
                    let mut e = self.edges[i].clone();
                    e.retarget(candidate.candidate_node_id.clone());
                    self.edges.set(i, e);
                }
                i = i + 1;
            }
            let mut node = match self.nodes.get(candidate.deprecated_node_id.as_str()) {
                Some(n) => n.clone(),
                None => {
                    return Ok(candidate);
                },
            };
            node.status = NodeStatus::Deprecated(
                DeprecatedMetadata {
                    expires_in_syncs: 1,
                    successor_id: Some(candidate.candidate_node_id.clone()),
                    reason: DeprecationReason::RenamedTo { new_fqn: candidate.candidate_fqn.clone() },
                },
            );
            self.nodes.insert(candidate.deprecated_node_id.to_text(), node);
            proof {
                assert(self@.edges =~= reroute(old(self)@.edges, dk, ck));
                assert(self@.nodes =~= old(self)@.nodes.insert(
                    dk,
                    NodeV { status: renamed_status(ck, old(self)@.nodes[ck].fqn), ..old(self)@.nodes[dk] },
                ));
            }
        }
        Ok(candidate)
    }

    /// The stored node, unless the PR overlay deletes it.
    pub fn get_node_detail(&self, node_id: &str) -> (r: Result<Node, ToolCallError>)
        requires
            self.wf(),
        ensures
            !resolves(self@.nodes, node_id@) ==> (r matches Err(e) && is_unknown_node_error(
                e,
                node_id@,
            )),
            resolves(self@.nodes, node_id@) && self@.deleted_in_overlay.contains(
                lower_hex_text(node_id@),
            ) ==> (r matches Err(ToolCallError::NodeDeletedInPr { fqn, suggestion }) && fqn@
                == self@.nodes[lower_hex_text(node_id@)].fqn && suggestion@ == deleted_in_pr_hint()),
            resolves(self@.nodes, node_id@) && !self@.deleted_in_overlay.contains(
                lower_hex_text(node_id@),
            ) ==> (r matches Ok(n) && n@ == self@.nodes[lower_hex_text(node_id@)]),
    {
        let node = match self.resolve_node_or_error(node_id) {
            Ok(n) => n,
            Err(e) => {
                return Err(e);
            },
        };
        if self.deleted_in_overlay.contains(node.id.as_str()) {
            return Err(
                ToolCallError::NodeDeletedInPr {
                    fqn: node.fqn.clone(),
                    suggestion: String::from_str(
                        "Flag callers of this node as potentially broken by the PR.",
                    ),
                },
            );
        }
        Ok(node.clone())
    }

    /// The neighbourhood of a node: its callers and callees, split by whether
    /// their edge needs escalation, within a node budget of at most
    /// `SUBGRAPH_HARD_CAP`. A node with more than `SUBGRAPH_REFUSAL_LIMIT`
    /// neighbours is refused.
    pub fn get_subgraph(
        &self,
        node_id: &str,
        escalation_confidence_threshold: i64,
        max_nodes: usize,
    ) -> (r: Result<SubgraphSummary, ToolCallError>)
        requires
            self.wf(),
        ensures
            max_nodes == 0 ==> (r matches Err(ToolCallError::InvalidSchema { detail }) && detail@
                == "max_nodes must be at least 1"@),
            max_nodes > SUBGRAPH_HARD_CAP ==> (r matches Err(ToolCallError::InvalidSchema { detail })
                && detail@ == "max_nodes may not exceed the hard cap of 25"@),
            1 <= max_nodes <= SUBGRAPH_HARD_CAP && !resolves(self@.nodes, node_id@) ==> (r matches Err(
                e,
            ) && is_unknown_node_error(e, node_id@)),
            1 <= max_nodes <= SUBGRAPH_HARD_CAP && resolves(self@.nodes, node_id@) ==> ({
                let q = self@.nodes[lower_hex_text(node_id@)];
                let total = caller_entries(
                    self@.nodes,
                    self@.edges,
                    q.id,
                    escalation_confidence_threshold as int,
                ).len() + callee_entries(
                    self@.nodes,
                    self@.edges,
                    q.id,
                    escalation_confidence_threshold as int,
                ).len();
                &&& total > SUBGRAPH_REFUSAL_LIMIT ==> (r matches Err(
                    ToolCallError::SubgraphTooLarge { node_count, cap, suggestion },
                ) && node_count == total
                    && cap == max_nodes && suggestion@ == too_large_hint())
                &&& total <= SUBGRAPH_REFUSAL_LIMIT ==> (r matches Ok(s) && subgraph_view(s)
                    == subgraph_of(
                    self@.nodes,
                    self@.edges,
                    q,
                    escalation_confidence_threshold as int,
                    max_nodes as int,
                ))
            }),
    {
        if max_nodes == 0 {
            return Err(ToolCallError::invalid_schema(String::from_str("max_nodes must be at least 1")));
        }
        if max_nodes > SUBGRAPH_HARD_CAP {
            return Err(
                ToolCallError::invalid_schema(
                    String::from_str("max_nodes may not exceed the hard cap of 25"),
                ),
            );
        }
        let queried_node = match self.resolve_node_or_error(node_id) {
            Ok(n) => n,
            Err(e) => {
                return Err(e);
            },
        };
        let ghost nodes = self@.nodes;
        let ghost edges = self@.edges;
        let ghost q = queried_node@.id;
        let ghost thr = escalation_confidence_threshold as int;
        let mut callers: Vec<(NodeSummary, bool)> = Vec::new();
        let mut callees: Vec<(NodeSummary, bool)> = Vec::new();
        let mut i: usize = 0;
        while i < self.edges.len()
            invariant
                self.wf(),
                nodes == self@.nodes,
                edges == self@.edges,
                q == queried_node@.id,
                thr == escalation_confidence_threshold as int,
                i <= self.edges@.len(),
                callers@.map_values(|p: (NodeSummary, bool)| (p.0@, p.1)) == caller_entries(
                    nodes,
                    edges.take(i as int),
                    q,
                    thr,
                ),
                callees@.map_values(|p: (NodeSummary, bool)| (p.0@, p.1)) == callee_entries(
                    nodes,
                    edges.take(i as int),
                    q,
                    thr,
                ),
                callers@.len() <= i,
                callees@.len() <= i,
            decreases self.edges@.len() - i,
        {
            let edge = &self.edges[i];
            proof {
                assert(edges.take(i + 1).drop_last() =~= edges.take(i as int));
                assert(edges.take(i + 1).last() == edge@);
            }
            if edge.target.same_as(&queried_node.id) {
                if let Some(source_node) = self.nodes.get(edge.source.as_str()) {
                    let summary = summary_for(source_node, edge);
                    let escalate = edge.requires_escalation(escalation_confidence_threshold);
                    callers.push((summary, escalate));
                }
            }
            if edge.source.same_as(&queried_node.id) {
                if let Some(target_node) = self.nodes.get(edge.target.as_str()) {
                    let summary = summary_for(target_node, edge);
                    let escalate = edge.requires_escalation(escalation_confidence_threshold);
                    callees.push((summary, escalate));
                }
            }
            i = i + 1;
            assert(callers@.map_values(|p: (NodeSummary, bool)| (p.0@, p.1)) =~= caller_entries(
                nodes,
                edges.take(i as int),
                q,
                thr,
            ));
            assert(callees@.map_values(|p: (NodeSummary, bool)| (p.0@, p.1)) =~= callee_entries(
                nodes,
                edges.take(i as int),
                q,
                thr,
            ));
        }
        assert(edges.take(edges.len() as int) =~= edges);
        let total_callers = callers.len();
        let total_callees = callees.len();
        let total_nodes = total_callers + total_callees;
        if total_nodes > SUBGRAPH_REFUSAL_LIMIT {
            return Err(
                ToolCallError::SubgraphTooLarge {
                    node_count: total_nodes,
                    cap: max_nodes,
                    suggestion: String::from_str(
                        "Reduce traversal depth or review a more specific entry point.",
                    ),
                },
            );
        }
        let omitted_count = if total_nodes > max_nodes {
            total_nodes - max_nodes
        } else {
            0
        };
        let truncated = omitted_count > 0;
        let allowed_callers = if total_callers < max_nodes {
            total_callers
        } else {
            max_nodes
        };
        let remaining_for_callees = max_nodes - allowed_callers;
        let allowed_callees = if total_callees < remaining_for_callees {
            total_callees
        } else {
            remaining_for_callees
        };
        callers.truncate(allowed_callers);
        callees.truncate(allowed_callees);
        let (high_confidence_callers, low_confidence_callers) = partition_by_escalation(callers);
        let (high_confidence_callees, low_confidence_callees) = partition_by_escalation(callees);
        proof {
            let cv = callers@.map_values(|p: (NodeSummary, bool)| (p.0@, p.1));
            assert(cv =~= caller_entries(nodes, edges, q, thr).take(allowed_callers as int));
            let dv = callees@.map_values(|p: (NodeSummary, bool)| (p.0@, p.1));
            assert(dv =~= callee_entries(nodes, edges, q, thr).take(allowed_callees as int));
        }
        let summary = SubgraphSummary {
            queried_node_id: queried_node.id.clone(),
            queried_node_fqn: queried_node.fqn.clone(),
            total_callers,
            total_callees,
            high_confidence_callers,
            low_confidence_callers,
            high_confidence_callees,
            low_confidence_callees,
            truncated,
            omitted_count: if truncated {
                Some(omitted_count)
            } else {
                None
            },
        };
        assert(subgraph_view(summary) == subgraph_of(nodes, edges, queried_node@, thr, max_nodes as int));
        Ok(summary)
    }
}

/// Splits summaries into those that need no escalation and those that do,
/// each in the order given.
fn partition_by_escalation(entries: Vec<(NodeSummary, bool)>) -> (r: (
    Vec<NodeSummary>,
    Vec<NodeSummary>,
))
    ensures
        summaries_view(r.0) == with_escalation(
            entries@.map_values(|p: (NodeSummary, bool)| (p.0@, p.1)),
            false,
        ),
        summaries_view(r.1) == with_escalation(
            entries@.map_values(|p: (NodeSummary, bool)| (p.0@, p.1)),
            true,
        ),
{
    let ghost model = entries@.map_values(|p: (NodeSummary, bool)| (p.0@, p.1));
    let mut high: Vec<NodeSummary> = Vec::new();
    let mut low: Vec<NodeSummary> = Vec::new();
    let mut rest = entries;
    let ghost n = model.len();
    let initial_len = rest.len();
    assert(n == initial_len);
    // Entries are consumed from the front by reversing once.
    let mut reversed: Vec<(NodeSummary, bool)> = Vec::new();
    while rest.len() > 0
        invariant
            reversed@.len() + rest@.len() == n,
            model.len() == n,
            n <= usize::MAX,
            forall|j: int| 0 <= j < rest@.len() ==> (#[trigger] rest@[j]).0@ == model[j].0 && rest@[j].1 == model[j].1,
            forall|j: int| 0 <= j < reversed@.len() ==> (#[trigger] reversed@[j]).0@ == model[n - 1 - j].0 && reversed@[j].1 == model[n - 1 - j].1,
        decreases rest@.len(),
    {
        let item = rest.pop().unwrap();
        reversed.push(item);
    }
    let mut k: usize = 0;
    while reversed.len() > 0
        invariant
            reversed@.len() + k == n,
            model.len() == n,
            n <= usize::MAX,
            forall|j: int| 0 <= j < reversed@.len() ==> (#[trigger] reversed@[j]).0@ == model[n - 1 - j].0 && reversed@[j].1 == model[n - 1 - j].1,
            summaries_view(high) == with_escalation(model.take(k as int), false),
            summaries_view(low) == with_escalation(model.take(k as int), true),
        decreases reversed@.len(),
    {
        let item = reversed.pop().unwrap();
        proof {
            assert(model.take(k + 1).drop_last() =~= model.take(k as int));
            assert(model.take(k + 1).last() == model[k as int]);
        }
        let (summary, escalate) = item;
        if escalate {
            low.push(summary);
        } else {
            high.push(summary);
        }
        k = k + 1;
        assert(summaries_view(high) =~= with_escalation(model.take(k as int), false));
        assert(summaries_view(low) =~= with_escalation(model.take(k as int), true));
    }
    assert(model.take(n as int) =~= model);
    (high, low)
}

} // verus!
