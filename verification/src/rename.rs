//! Rename detection: weighs the evidence that a new node is a deprecated
//! node under another name.

use vstd::prelude::*;

use crate::schema::{
    arity_of, is_structurally_comparable_sig, param_names_of, Node, NodeId, NodeV,
    PartialParam, Signature, TypedParam, CONFIDENCE_SCALE,
};
use crate::text::chars_of;

verus! {

/// The weights of the evidence, in parts per million.
pub const BODY_HASH_WEIGHT: i64 = 700_000;

pub const ARITY_WEIGHT: i64 = 150_000;

pub const PARAM_NAMES_WEIGHT: i64 = 100_000;

pub const SAME_DIRECTORY_WEIGHT: i64 = 50_000;

/// A rename at or above this confidence is applied without confirmation.
pub const AUTO_ACCEPT_THRESHOLD: i64 = 700_000;

#[derive(Clone, Copy, Debug, PartialEq, Eq, Structural)]
pub struct RenameEvidence {
    pub body_hash_match: bool,
    pub arity_match: bool,
    pub param_names_match: bool,
    pub same_directory: bool,
}

/// The weighted sum of the evidence, capped at 1.0.
pub open spec fn evidence_confidence(e: RenameEvidence) -> int {
    let sum = (if e.body_hash_match { BODY_HASH_WEIGHT as int } else { 0 }) + (if e.arity_match {
        ARITY_WEIGHT as int
    } else {
        0
    }) + (if e.param_names_match { PARAM_NAMES_WEIGHT as int } else { 0 }) + (if e.same_directory {
        SAME_DIRECTORY_WEIGHT as int
    } else {
        0
    });
    if sum < CONFIDENCE_SCALE {
        sum
    } else {
        CONFIDENCE_SCALE as int
    }
}

impl RenameEvidence {
    pub fn confidence(&self) -> (r: i64)
        ensures
            r == evidence_confidence(*self),
    {
        let mut confidence: i64 = 0;
        if self.body_hash_match {
            confidence = confidence + BODY_HASH_WEIGHT;
        }
        if self.arity_match {
            confidence = confidence + ARITY_WEIGHT;
        }
        if self.param_names_match {
            confidence = confidence + PARAM_NAMES_WEIGHT;
        }
        if self.same_directory {
            confidence = confidence + SAME_DIRECTORY_WEIGHT;
        }
        if confidence < CONFIDENCE_SCALE {
            confidence
        } else {
            CONFIDENCE_SCALE
        }
    }
}

/// A path separator, forward or backward.
pub open spec fn is_separator(c: char) -> bool {
    c == '/' || c == '\\'
}

/// The index of the last separator in `s`, or -1 where there is none.
pub open spec fn last_separator(s: Seq<char>) -> int
    decreases s.len(),
{
    if s.len() == 0 {
        -1
    } else if is_separator(s.last()) {
        s.len() - 1
    } else {
        last_separator(s.drop_last())
    }
}

/// The part of a path before its last separator, or the whole path where it
/// has none.
pub open spec fn parent_directory_of(path: Seq<char>) -> Seq<char> {
    if last_separator(path) < 0 {
        path
    } else {
        path.take(last_separator(path))
    }
}

proof fn lemma_last_separator(s: Seq<char>, i: int)
    requires
        0 <= i <= s.len(),
        forall|j: int| i <= j < s.len() ==> !is_separator(#[trigger] s[j]),
    ensures
        last_separator(s) == last_separator(s.take(i)),
    decreases s.len() - i,
{
    if i < s.len() {
        assert(s.drop_last() =~= s.take(s.len() - 1));
        lemma_last_separator(s.take(s.len() - 1), i);
        assert(s.take(s.len() - 1).take(i) =~= s.take(i));
    } else {
        assert(s.take(i) =~= s);
    }
}

fn parent_directory(path: &str) -> (r: String)
    ensures
        r@ == parent_directory_of(path@),
{
    let cs = chars_of(path);
    let mut i = cs.len();
    while i > 0
        invariant
            cs@ == path@,
            i <= cs@.len(),
            forall|j: int| i <= j < cs@.len() ==> !is_separator(#[trigger] cs@[j]),
        decreases i,
    {
        if cs[i - 1] == '/' || cs[i - 1] == '\\' {
            proof {
                lemma_last_separator(cs@, i as int);
                assert(cs@.take(i as int).drop_last() =~= cs@.take(i - 1));
            }
            return crate::text::string_of(&cs, 0, i - 1);
        }
        i = i - 1;
    }
    proof {
        lemma_last_separator(cs@, 0);
    }
    crate::text::string_of(&cs, 0, cs.len())
}

#[derive(Debug, PartialEq)]
pub struct RenameCandidate {
    pub deprecated_node_id: NodeId,
    pub deprecated_fqn: String,
    pub candidate_node_id: NodeId,
    pub candidate_fqn: String,
    pub evidence: RenameEvidence,
    pub confidence: i64,
}

pub struct RenameCandidateV {
    pub deprecated_node_id: Seq<char>,
    pub deprecated_fqn: Seq<char>,
    pub candidate_node_id: Seq<char>,
    pub candidate_fqn: Seq<char>,
    pub evidence: RenameEvidence,
    pub confidence: int,
}

impl View for RenameCandidate {
    type V = RenameCandidateV;

    open spec fn view(&self) -> RenameCandidateV {
        RenameCandidateV {
            deprecated_node_id: self.deprecated_node_id@,
            deprecated_fqn: self.deprecated_fqn@,
            candidate_node_id: self.candidate_node_id@,
            candidate_fqn: self.candidate_fqn@,
            evidence: self.evidence,
            confidence: self.confidence as int,
        }
    }
}

/// The evidence that `candidate` is `deprecated` renamed.
pub open spec fn rename_evidence_of(deprecated: NodeV, candidate: NodeV) -> RenameEvidence {
    RenameEvidence {
        body_hash_match: deprecated.body_hash == candidate.body_hash,
        arity_match: arity_of(deprecated.signature) == arity_of(candidate.signature),
        param_names_match: is_structurally_comparable_sig(deprecated.signature)
            && is_structurally_comparable_sig(candidate.signature) && param_names_of(
            deprecated.signature,
        ) == param_names_of(candidate.signature),
        same_directory: parent_directory_of(deprecated.file_path) == parent_directory_of(
            candidate.file_path,
        ),
    }
}

pub open spec fn rename_candidate_of(deprecated: NodeV, candidate: NodeV) -> RenameCandidateV {
    RenameCandidateV {
        deprecated_node_id: deprecated.id,
        deprecated_fqn: deprecated.fqn,
        candidate_node_id: candidate.id,
        candidate_fqn: candidate.fqn,
        evidence: rename_evidence_of(deprecated, candidate),
        confidence: evidence_confidence(rename_evidence_of(deprecated, candidate)),
    }
}

fn same_typed_names(a: &Vec<TypedParam>, b: &Vec<TypedParam>) -> (r: bool)
    ensures
        r == (a@.map_values(|p: TypedParam| p@.name) == b@.map_values(|p: TypedParam| p@.name)),
{
    if a.len() != b.len() {
        proof {
            assert(a@.map_values(|p: TypedParam| p@.name).len() != b@.map_values(
                |p: TypedParam| p@.name,
            ).len());
        }
        return false;
    }
    let mut i: usize = 0;
    while i < a.len()
        invariant
            a@.len() == b@.len(),
            i <= a@.len(),
            forall|j: int| 0 <= j < i ==> (#[trigger] a@[j]).name@ == b@[j].name@,
        decreases a@.len() - i,
    {
        if a[i].name != b[i].name {
            proof {
                assert(a@.map_values(|p: TypedParam| p@.name)[i as int] != b@.map_values(
                    |p: TypedParam| p@.name,
                )[i as int]);
            }
            return false;
        }
        i = i + 1;
    }
    assert(a@.map_values(|p: TypedParam| p@.name) =~= b@.map_values(|p: TypedParam| p@.name));
    true
}

fn same_partial_names(a: &Vec<PartialParam>, b: &Vec<PartialParam>) -> (r: bool)
    ensures
        r == (a@.map_values(|p: PartialParam| p@.name) == b@.map_values(
            |p: PartialParam| p@.name,
        )),
{
    if a.len() != b.len() {
        proof {
            assert(a@.map_values(|p: PartialParam| p@.name).len() != b@.map_values(
                |p: PartialParam| p@.name,
            ).len());
        }
        return false;
    }
    let mut i: usize = 0;
    while i < a.len()
        invariant
            a@.len() == b@.len(),
            i <= a@.len(),
            forall|j: int| 0 <= j < i ==> (#[trigger] a@[j]).name@ == b@[j].name@,
        decreases a@.len() - i,
    {
        if a[i].name != b[i].name {
            proof {
                assert(a@.map_values(|p: PartialParam| p@.name)[i as int] != b@.map_values(
                    |p: PartialParam| p@.name,
                )[i as int]);
            }
            return false;
        }
        i = i + 1;
    }
    assert(a@.map_values(|p: PartialParam| p@.name) =~= b@.map_values(|p: PartialParam| p@.name));
    true
}

/// Whether two signatures list their parameters under the same names.
fn same_param_names(a: &Signature, b: &Signature) -> (r: bool)
    requires
        is_structurally_comparable_sig(a@),
        is_structurally_comparable_sig(b@),
    ensures
        r == (param_names_of(a@) == param_names_of(b@)),
{
    match (a, b) {
        (Signature::Typed { params: pa, .. }, Signature::Typed { params: pb, .. }) => {
            let r = same_typed_names(pa, pb);
            proof {
                assert(pa@.map_values(|p: TypedParam| p@).map_values(|p: crate::schema::TypedParamV| p.name) =~= pa@.map_values(|p: TypedParam| p@.name));
                assert(pb@.map_values(|p: TypedParam| p@).map_values(|p: crate::schema::TypedParamV| p.name) =~= pb@.map_values(|p: TypedParam| p@.name));
            }
            r
        },
        (Signature::PartiallyTyped { params: pa, .. }, Signature::PartiallyTyped { params: pb, .. }) => {
            let r = same_partial_names(pa, pb);
            proof {
                assert(pa@.map_values(|p: PartialParam| p@).map_values(|p: crate::schema::PartialParamV| p.name) =~= pa@.map_values(|p: PartialParam| p@.name));
                assert(pb@.map_values(|p: PartialParam| p@).map_values(|p: crate::schema::PartialParamV| p.name) =~= pb@.map_values(|p: PartialParam| p@.name));
            }
            r
        },
        (Signature::Typed { params: pa, .. }, Signature::PartiallyTyped { params: pb, .. }) => {
            mixed_names(pa, pb)
        },
        (Signature::PartiallyTyped { params: pa, .. }, Signature::Typed { params: pb, .. }) => {
            mixed_names(pb, pa)
        },
        _ => false,
    }
}

fn mixed_names(a: &Vec<TypedParam>, b: &Vec<PartialParam>) -> (r: bool)
    ensures
        r == (a@.map_values(|p: TypedParam| p@).map_values(|p: crate::schema::TypedParamV| p.name)
            == b@.map_values(|p: PartialParam| p@).map_values(
            |p: crate::schema::PartialParamV| p.name,
        )),
{
    let ghost na = a@.map_values(|p: TypedParam| p@).map_values(|p: crate::schema::TypedParamV| p.name);
    let ghost nb = b@.map_values(|p: PartialParam| p@).map_values(
        |p: crate::schema::PartialParamV| p.name,
    );
    if a.len() != b.len() {
        assert(na.len() != nb.len());
        return false;
    }
    let mut i: usize = 0;
    while i < a.len()
        invariant
            a@.len() == b@.len(),
            i <= a@.len(),
            na == a@.map_values(|p: TypedParam| p@).map_values(|p: crate::schema::TypedParamV| p.name),
            nb == b@.map_values(|p: PartialParam| p@).map_values(
                |p: crate::schema::PartialParamV| p.name,
            ),
            forall|j: int| 0 <= j < i ==> (#[trigger] a@[j]).name@ == b@[j].name@,
        decreases a@.len() - i,
    {
        if a[i].name != b[i].name {
            assert(na[i as int] != nb[i as int]);
            return false;
        }
        i = i + 1;
    }
    assert(na =~= nb);
    true
}

impl RenameCandidate {
    pub fn from_nodes(deprecated: &Node, candidate: &Node) -> (r: RenameCandidate)
        ensures
            r@ == rename_candidate_of(deprecated@, candidate@),
    {
        let structurally_comparable = deprecated.signature.is_structurally_comparable()
            && candidate.signature.is_structurally_comparable();
        let arity_a = deprecated.signature.arity();
        let arity_b = candidate.signature.arity();
        let arity_match = match (arity_a, arity_b) {
            (Some(x), Some(y)) => x == y,
            (None, None) => true,
            _ => false,
        };
        let param_names_match = structurally_comparable && same_param_names(
            &deprecated.signature,
            &candidate.signature,
        );
        let dir_a = parent_directory(deprecated.file_path.as_str());
        let dir_b = parent_directory(candidate.file_path.as_str());
        let evidence = RenameEvidence {
            body_hash_match: deprecated.body_hash == candidate.body_hash,
            arity_match,
            param_names_match,
            same_directory: dir_a == dir_b,
        };
        let confidence = evidence.confidence();
        RenameCandidate {
            deprecated_node_id: deprecated.id.clone(),
            deprecated_fqn: deprecated.fqn.clone(),
            candidate_node_id: candidate.id.clone(),
            candidate_fqn: candidate.fqn.clone(),
            evidence,
            confidence,
        }
    }

    pub fn auto_accept(&self) -> (r: bool)
        ensures
            r == (self.confidence >= AUTO_ACCEPT_THRESHOLD),
    {
        self.confidence >= AUTO_ACCEPT_THRESHOLD
    }
}

} // verus!
