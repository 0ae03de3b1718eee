//! Errors: schema violations, and the structured errors that tool calls
//! hand back to their caller.

use vstd::prelude::*;

use crate::json::{
    entry_keys, json_is_object, json_members, json_object_keys, json_string_members,
    json_string_object, json_text, keys_ascending, keys_distinct, lemma_entry_keys_are_members,
    string_members_of, text_before,
};
use crate::schema::{NodeId, ResolutionMethod};
use crate::text::{decimal_of, decimal_text};

verus! {

/// A value that the graph schema refuses. Confidences are in parts per
/// million (see `schema::CONFIDENCE_SCALE`).
#[derive(Debug, PartialEq)]
pub enum SchemaError {
    InvalidNodeId(String),
    InvalidGraphVersion,
    InvalidConfidence(i64),
    ConfidenceMismatch { resolution: ResolutionMethod, confidence: i64 },
    ConfidenceOutOfCalibratedRange {
        resolution: ResolutionMethod,
        confidence: i64,
        min: i64,
        max: i64,
    },
    EdgeTargetsDeprecatedNode { target: NodeId },
    InvalidConfidenceRange { min: i64, max: i64 },
    NodeIdMismatch { provided: NodeId, expected: NodeId },
    MissingNode(String),
}

} // verus!

verus! {

/// The suggestion attached to unknown-node errors.
pub open spec fn find_callers_hint() -> Seq<char> {
    "Use find_callers('<name>') to search by human-readable name."@
}

/// A structured tool-call failure that callers append to their context.
#[derive(Debug, PartialEq)]
pub enum ToolCallError {
    UnknownNode { requested_id: String, suggestion: String },
    NodeDeletedInPr { fqn: String, suggestion: String },
    QueryTimeout { timeout_ms: u64, suggestion: String },
    InvalidSchema { detail: String },
    SubgraphTooLarge { node_count: usize, cap: usize, suggestion: String },
}

impl Clone for ToolCallError {
    fn clone(&self) -> (r: Self)
        ensures
            r == *self,
    {
        match self {
            ToolCallError::UnknownNode { requested_id, suggestion } => ToolCallError::UnknownNode {
                requested_id: requested_id.clone(),
                suggestion: suggestion.clone(),
            },
            ToolCallError::NodeDeletedInPr { fqn, suggestion } => ToolCallError::NodeDeletedInPr {
                fqn: fqn.clone(),
                suggestion: suggestion.clone(),
            },
            ToolCallError::QueryTimeout { timeout_ms, suggestion } => ToolCallError::QueryTimeout {
                timeout_ms: *timeout_ms,
                suggestion: suggestion.clone(),
            },
            ToolCallError::InvalidSchema { detail } => ToolCallError::InvalidSchema {
                detail: detail.clone(),
            },
            ToolCallError::SubgraphTooLarge { node_count, cap, suggestion } =>
                ToolCallError::SubgraphTooLarge {
                node_count: *node_count,
                cap: *cap,
                suggestion: suggestion.clone(),
            },
        }
    }
}

/// The stable error code of each variant.
pub open spec fn code_of(e: ToolCallError) -> Seq<char> {
    match e {
        ToolCallError::UnknownNode { .. } => "UNKNOWN_NODE"@,
        ToolCallError::NodeDeletedInPr { .. } => "NODE_DELETED_IN_PR"@,
        ToolCallError::QueryTimeout { .. } => "QUERY_TIMEOUT"@,
        ToolCallError::InvalidSchema { .. } => "INVALID_SCHEMA"@,
        ToolCallError::SubgraphTooLarge { .. } => "SUBGRAPH_TOO_LARGE"@,
    }
}

/// The human-readable detail of each variant.
pub open spec fn detail_of(e: ToolCallError) -> Seq<char> {
    match e {
        ToolCallError::UnknownNode { requested_id, .. } => "The requested node `"@ + requested_id@
            + "` does not exist in the current graph."@,
        ToolCallError::NodeDeletedInPr { fqn, .. } => "The node `"@ + fqn@
            + "` exists in the baseline graph but was removed in the PR overlay."@,
        ToolCallError::QueryTimeout { timeout_ms, .. } =>
            "The graph query exceeded the timeout threshold of "@ + decimal_of(timeout_ms as nat)
            + " ms."@,
        ToolCallError::InvalidSchema { detail } => detail@,
        ToolCallError::SubgraphTooLarge { node_count, cap, .. } =>
            "The requested subgraph would return "@ + decimal_of(node_count as nat)
            + " nodes which exceeds the cap of "@ + decimal_of(cap as nat) + "."@,
    }
}

/// The members of the error's JSON payload, in key order: `detail`,
/// `error` (the code) and, for all variants but `InvalidSchema`,
/// `suggestion`.
pub open spec fn payload_entries_of(e: ToolCallError) -> Seq<(Seq<char>, Seq<char>)> {
    match e {
        ToolCallError::InvalidSchema { .. } => seq![
            ("detail"@, detail_of(e)),
            ("error"@, code_of(e)),
        ],
        ToolCallError::UnknownNode { suggestion, .. } => seq![
            ("detail"@, detail_of(e)),
            ("error"@, code_of(e)),
            ("suggestion"@, suggestion@),
        ],
        ToolCallError::NodeDeletedInPr { suggestion, .. } => seq![
            ("detail"@, detail_of(e)),
            ("error"@, code_of(e)),
            ("suggestion"@, suggestion@),
        ],
        ToolCallError::QueryTimeout { suggestion, .. } => seq![
            ("detail"@, detail_of(e)),
            ("error"@, code_of(e)),
            ("suggestion"@, suggestion@),
        ],
        ToolCallError::SubgraphTooLarge { suggestion, .. } => seq![
            ("detail"@, detail_of(e)),
            ("error"@, code_of(e)),
            ("suggestion"@, suggestion@),
        ],
    }
}

/// The compact JSON text of the error's payload.
pub open spec fn json_text_of(e: ToolCallError) -> Seq<char> {
    "{"@ + json_members(payload_entries_of(e)) + "}"@
}

impl ToolCallError {
    pub fn invalid_schema(detail: String) -> (r: Self)
        ensures
            r == (ToolCallError::InvalidSchema { detail }),
    {
        Self::InvalidSchema { detail }
    }

    pub fn code(&self) -> (r: &'static str)
        ensures
            r@ == code_of(*self),
    {
        match self {
            Self::UnknownNode { .. } => "UNKNOWN_NODE",
            Self::NodeDeletedInPr { .. } => "NODE_DELETED_IN_PR",
            Self::QueryTimeout { .. } => "QUERY_TIMEOUT",
            Self::InvalidSchema { .. } => "INVALID_SCHEMA",
            Self::SubgraphTooLarge { .. } => "SUBGRAPH_TOO_LARGE",
        }
    }

    /// The human-readable detail that the payload carries.
    pub fn detail(&self) -> (r: String)
        ensures
            r@ == detail_of(*self),
    {
        match self {
            Self::UnknownNode { requested_id, .. } => {
                let mut s = String::from_str("The requested node `");
                s.append(requested_id.as_str());
                s.append("` does not exist in the current graph.");
                s
            },
            Self::NodeDeletedInPr { fqn, .. } => {
                let mut s = String::from_str("The node `");
                s.append(fqn.as_str());
                s.append("` exists in the baseline graph but was removed in the PR overlay.");
                s
            },
            Self::QueryTimeout { timeout_ms, .. } => {
                let mut s = String::from_str("The graph query exceeded the timeout threshold of ");
                let n = decimal_text(*timeout_ms);
                s.append(n.as_str());
                s.append(" ms.");
                s
            },
            Self::InvalidSchema { detail } => detail.clone(),
            Self::SubgraphTooLarge { node_count, cap, .. } => {
                let mut s = String::from_str("The requested subgraph would return ");
                let n = decimal_text(*node_count as u64);
                s.append(n.as_str());
                s.append(" nodes which exceeds the cap of ");
                let c = decimal_text(*cap as u64);
                s.append(c.as_str());
                s.append(".");
                s
            },
        }
    }

    /// The members of the JSON payload, keys in order.
    pub fn payload_entries(&self) -> (r: Vec<(String, String)>)
        ensures
            r@.map_values(|p: (String, String)| (p.0@, p.1@)) == payload_entries_of(*self),
    {
        let mut entries: Vec<(String, String)> = Vec::new();
        entries.push((String::from_str("detail"), self.detail()));
        entries.push((String::from_str("error"), String::from_str(self.code())));
        match self {
            Self::InvalidSchema { .. } => {},
            Self::UnknownNode { suggestion, .. } | Self::NodeDeletedInPr { suggestion, .. }
            | Self::QueryTimeout { suggestion, .. } | Self::SubgraphTooLarge {
                suggestion,
                ..
            } => {
                entries.push((String::from_str("suggestion"), suggestion.clone()));
            },
        }
        assert(entries@.map_values(|p: (String, String)| (p.0@, p.1@)) =~= payload_entries_of(
            *self,
        ));
        entries
    }

    /// The payload as a JSON object: its members are exactly the payload
    /// entries, each a JSON string.
    pub fn payload(&self) -> (r: serde_json::Value)
        ensures
            json_is_object(r),
            json_object_keys(r) == entry_keys(payload_entries_of(*self)),
            json_string_members(r) == string_members_of(payload_entries_of(*self)),
            json_object_keys(r) == json_string_members(r).dom(),
    {
        let entries = self.payload_entries();
        proof {
            lemma_payload_keys_ascending(*self);
            lemma_entry_keys_are_members(payload_entries_of(*self));
        }
        json_string_object(entries)
    }

    /// The payload as compact JSON text, keys in order.
    pub fn to_json(&self) -> (r: String)
        ensures
            r@ == json_text_of(*self),
    {
        let value = self.payload();
        proof {
            let e = payload_entries_of(*self);
            lemma_payload_keys_ascending(*self);
            lemma_entry_keys_are_members(e);
            assert(string_members_of(e) == json_string_members(value));
        }
        json_text(&value)
    }
}

/// The payload's keys, `detail`, `error` and `suggestion`, come in
/// increasing order, so none repeats.
proof fn lemma_payload_keys_ascending(e: ToolCallError)
    ensures
        keys_ascending(payload_entries_of(e)),
        keys_distinct(payload_entries_of(e)),
{
    reveal_strlit("detail");
    reveal_strlit("error");
    reveal_strlit("suggestion");
    assert(text_before("detail"@, "error"@));
    assert(text_before("detail"@, "suggestion"@));
    assert(text_before("error"@, "suggestion"@));
    assert("detail"@ != "error"@) by {
        assert("detail"@[0] != "error"@[0]);
    }
    assert("detail"@ != "suggestion"@) by {
        assert("detail"@[0] != "suggestion"@[0]);
    }
    assert("error"@ != "suggestion"@) by {
        assert("error"@[0] != "suggestion"@[0]);
    }
}

} // verus!
