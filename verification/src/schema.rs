//! The graph schema: node identities, versions, nodes, signatures, edges and
//! the confidence configuration. Constructors enforce the schema's rules.
//!
//! Confidences are fixed-point numbers in parts per million:
//! `CONFIDENCE_SCALE` stands for a confidence of 1.0.

use vstd::prelude::*;

use crate::digest::{hex_encode, hex_lower, is_lower_hex, lemma_hex_lower_shape, sha256_of_text, sha256_text};
use crate::errors::SchemaError;
use crate::text::{chars_of, push_char};

verus! {

/// A confidence of 1.0, in parts per million.
pub const CONFIDENCE_SCALE: i64 = 1_000_000;

// ---------------------------------------------------------------- NodeId

/// An ASCII hexadecimal digit, upper or lower case.
pub open spec fn is_hex_char(c: char) -> bool {
    ('0' <= c && c <= '9') || ('a' <= c && c <= 'f') || ('A' <= c && c <= 'F')
}

/// The text of a well-formed node id: 64 hexadecimal digits.
pub open spec fn is_node_id_text(s: Seq<char>) -> bool {
    s.len() == 64 && forall|i: int| 0 <= i < s.len() ==> is_hex_char(#[trigger] s[i])
}

/// A node id as the engine stores it: 64 lower-case hexadecimal digits.
pub open spec fn is_canonical_id(s: Seq<char>) -> bool {
    is_node_id_text(s) && forall|i: int| 0 <= i < s.len() ==> is_lower_hex(#[trigger] s[i])
}

/// A hexadecimal digit in lower case.
pub open spec fn lower_hex_char(c: char) -> char {
    if c == 'A' {
        'a'
    } else if c == 'B' {
        'b'
    } else if c == 'C' {
        'c'
    } else if c == 'D' {
        'd'
    } else if c == 'E' {
        'e'
    } else if c == 'F' {
        'f'
    } else {
        c
    }
}

pub open spec fn lower_hex_text(s: Seq<char>) -> Seq<char> {
    Seq::new(s.len(), |i: int| lower_hex_char(s[i]))
}

/// The id of the node `fqn` in `language`: the lower-case hex SHA-256 digest
/// of `"{language}::{fqn}"`.
pub open spec fn node_id_of(language: Seq<char>, fqn: Seq<char>) -> Seq<char> {
    hex_lower(sha256_of_text(language + "::"@ + fqn))
}

/// A node's identity: the hex SHA-256 of `"{language}::{fqn}"`.
#[derive(Debug, PartialEq, Eq, Hash, PartialOrd, Ord)]
pub struct NodeId(String);

impl View for NodeId {
    type V = Seq<char>;

    closed spec fn view(&self) -> Seq<char> {
        self.0@
    }
}

impl Clone for NodeId {
    fn clone(&self) -> (r: Self)
        ensures
            r == *self,
    {
        NodeId(self.0.clone())
    }
}

impl NodeId {
    pub fn new(language: &str, fully_qualified_name: &str) -> (id: NodeId)
        ensures
            id@ == node_id_of(language@, fully_qualified_name@),
            is_canonical_id(id@),
    {
        let mut text = String::from_str(language);
        text.append("::");
        text.append(fully_qualified_name);
        let digest = sha256_text(text.as_str());
        let encoded = hex_encode(digest.as_slice());
        proof {
            lemma_hex_lower_shape(digest@);
            assert forall|i: int| 0 <= i < encoded@.len() implies is_hex_char(#[trigger] encoded@[i]) by {
                assert(is_lower_hex(encoded@[i]));
            }
        }
        NodeId(encoded)
    }

    /// Accepts 64 hexadecimal digits and stores them in lower case.
    pub fn from_hex(value: String) -> (r: Result<NodeId, SchemaError>)
        ensures
            is_node_id_text(value@) ==> (r matches Ok(id) && id@ == lower_hex_text(value@)),
            !is_node_id_text(value@) ==> (r matches Err(SchemaError::InvalidNodeId(v)) && v@
                == value@),
    {
        let cs = chars_of(value.as_str());
        if cs.len() != 64 {
            return Err(SchemaError::InvalidNodeId(value));
        }
        let mut lowered = String::new();
        let mut i: usize = 0;
        while i < cs.len()
            invariant
                cs@ == value@,
                cs@.len() == 64,
                i <= cs@.len(),
                forall|j: int| 0 <= j < i ==> is_hex_char(#[trigger] cs@[j]),
                lowered@ == lower_hex_text(cs@.take(i as int)),
            decreases cs@.len() - i,
        {
            let c = cs[i];
            let lower = if '0' <= c && c <= '9' {
                c
            } else if 'a' <= c && c <= 'f' {
                c
            } else if c == 'A' {
                'a'
            } else if c == 'B' {
                'b'
            } else if c == 'C' {
                'c'
            } else if c == 'D' {
                'd'
            } else if c == 'E' {
                'e'
            } else if c == 'F' {
                'f'
            } else {
                assert(!is_node_id_text(value@)) by {
                    assert(!is_hex_char(value@[i as int]));
                }
                return Err(SchemaError::InvalidNodeId(value));
            };
            push_char(&mut lowered, lower);
            i = i + 1;
            assert(lowered@ =~= lower_hex_text(cs@.take(i as int)));
        }
        assert(cs@.take(64) =~= cs@);
        Ok(NodeId(lowered))
    }

    pub fn as_str(&self) -> (r: &str)
        ensures
            r@ == self@,
    {
        self.0.as_str()
    }

    /// Whether two ids are the same id.
    pub fn same_as(&self, other: &NodeId) -> (r: bool)
        ensures
            r == (self@ == other@),
    {
        self.0 == other.0
    }

    /// The id as an owned string.
    pub fn to_text(&self) -> (r: String)
        ensures
            r@ == self@,
    {
        self.0.clone()
    }
}

// ---------------------------------------------------------------- GraphVersion

/// A graph version: starts at 1 and is never 0.
#[derive(Clone, Copy, Debug, Eq, Ord, PartialEq, PartialOrd)]
pub struct GraphVersion(u64);

impl View for GraphVersion {
    type V = u64;

    closed spec fn view(&self) -> u64 {
        self.0
    }
}

impl GraphVersion {
    #[verifier::type_invariant]
    closed spec fn starts_at_one(self) -> bool {
        self.0 >= 1
    }

    pub fn new(value: u64) -> (r: Result<GraphVersion, SchemaError>)
        ensures
            value == 0 ==> r matches Err(SchemaError::InvalidGraphVersion),
            value != 0 ==> (r matches Ok(v) && v@ == value),
    {
        if value == 0 {
            return Err(SchemaError::InvalidGraphVersion);
        }
        Ok(GraphVersion(value))
    }

    pub fn initial() -> (r: GraphVersion)
        ensures
            r@ == 1,
    {
        GraphVersion(1)
    }

    pub fn increment(self) -> (r: GraphVersion)
        requires
            self@ < u64::MAX,
        ensures
            r@ == self@ + 1,
    {
        proof {
            use_type_invariant(&self);
        }
        GraphVersion(self.0 + 1)
    }

    pub fn value(self) -> (r: u64)
        ensures
            r == self@,
            r >= 1,
    {
        proof {
            use_type_invariant(&self);
        }
        self.0
    }
}

impl Default for GraphVersion {
    fn default() -> (r: Self)
        ensures
            r@ == 1,
    {
        Self::initial()
    }
}

// ---------------------------------------------------------------- nodes

#[derive(Debug, Eq, PartialEq)]
pub struct SourceLocation {
    pub start_line: u32,
    pub end_line: u32,
}

impl Clone for SourceLocation {
    fn clone(&self) -> (r: Self)
        ensures
            r == *self,
    {
        SourceLocation { start_line: self.start_line, end_line: self.end_line }
    }
}

#[derive(Debug, Eq, PartialEq)]
pub enum NodeKind {
    Function,
    Method { parent_fqn: String },
    Class,
    Struct,
    Interface,
    Trait,
    Module,
}

pub enum NodeKindV {
    Function,
    Method { parent_fqn: Seq<char> },
    Class,
    Struct,
    Interface,
    Trait,
    Module,
}

impl View for NodeKind {
    type V = NodeKindV;

    open spec fn view(&self) -> NodeKindV {
        match self {
            NodeKind::Function => NodeKindV::Function,
            NodeKind::Method { parent_fqn } => NodeKindV::Method { parent_fqn: parent_fqn@ },
            NodeKind::Class => NodeKindV::Class,
            NodeKind::Struct => NodeKindV::Struct,
            NodeKind::Interface => NodeKindV::Interface,
            NodeKind::Trait => NodeKindV::Trait,
            NodeKind::Module => NodeKindV::Module,
        }
    }
}

impl Clone for NodeKind {
    fn clone(&self) -> (r: Self)
        ensures
            r == *self,
    {
        match self {
            NodeKind::Function => NodeKind::Function,
            NodeKind::Method { parent_fqn } => NodeKind::Method { parent_fqn: parent_fqn.clone() },
            NodeKind::Class => NodeKind::Class,
            NodeKind::Struct => NodeKind::Struct,
            NodeKind::Interface => NodeKind::Interface,
            NodeKind::Trait => NodeKind::Trait,
            NodeKind::Module => NodeKind::Module,
        }
    }
}

#[derive(Debug, Eq, PartialEq)]
pub enum DeprecationReason {
    RenamedTo { new_fqn: String },
    Unresolved,
}

pub enum DeprecationReasonV {
    RenamedTo { new_fqn: Seq<char> },
    Unresolved,
}

impl View for DeprecationReason {
    type V = DeprecationReasonV;

    open spec fn view(&self) -> DeprecationReasonV {
        match self {
            DeprecationReason::RenamedTo { new_fqn } => DeprecationReasonV::RenamedTo {
                new_fqn: new_fqn@,
            },
            DeprecationReason::Unresolved => DeprecationReasonV::Unresolved,
        }
    }
}

impl Clone for DeprecationReason {
    fn clone(&self) -> (r: Self)
        ensures
            r == *self,
    {
        match self {
            DeprecationReason::RenamedTo { new_fqn } => DeprecationReason::RenamedTo {
                new_fqn: new_fqn.clone(),
            },
            DeprecationReason::Unresolved => DeprecationReason::Unresolved,
        }
    }
}

#[derive(Debug, Eq, PartialEq)]
pub struct DeprecatedMetadata {
    pub expires_in_syncs: u8,
    pub successor_id: Option<NodeId>,
    pub reason: DeprecationReason,
}

pub struct DeprecatedMetadataV {
    pub expires_in_syncs: u8,
    pub successor_id: Option<Seq<char>>,
    pub reason: DeprecationReasonV,
}

pub open spec fn id_option_view(id: Option<NodeId>) -> Option<Seq<char>> {
    match id {
        Some(v) => Some(v@),
        None => None,
    }
}

impl View for DeprecatedMetadata {
    type V = DeprecatedMetadataV;

    open spec fn view(&self) -> DeprecatedMetadataV {
        DeprecatedMetadataV {
            expires_in_syncs: self.expires_in_syncs,
            successor_id: id_option_view(self.successor_id),
            reason: self.reason@,
        }
    }
}

impl Clone for DeprecatedMetadata {
    fn clone(&self) -> (r: Self)
        ensures
            r == *self,
    {
        let successor_id = match &self.successor_id {
            Some(id) => Some(id.clone()),
            None => None,
        };
        DeprecatedMetadata {
            expires_in_syncs: self.expires_in_syncs,
            successor_id,
            reason: self.reason.clone(),
        }
    }
}

#[derive(Debug, Eq, PartialEq)]
pub enum NodeStatus {
    Active,
    Deprecated(DeprecatedMetadata),
}

pub enum NodeStatusV {
    Active,
    Deprecated(DeprecatedMetadataV),
}

impl View for NodeStatus {
    type V = NodeStatusV;

    open spec fn view(&self) -> NodeStatusV {
        match self {
            NodeStatus::Active => NodeStatusV::Active,
            NodeStatus::Deprecated(m) => NodeStatusV::Deprecated(m@),
        }
    }
}

impl Clone for NodeStatus {
    fn clone(&self) -> (r: Self)
        ensures
            r == *self,
    {
        match self {
            NodeStatus::Active => NodeStatus::Active,
            NodeStatus::Deprecated(m) => NodeStatus::Deprecated(m.clone()),
        }
    }
}

impl NodeStatus {
    pub fn is_deprecated(&self) -> (r: bool)
        ensures
            r == (self is Deprecated),
            r == (self@ is Deprecated),
    {
        match self {
            NodeStatus::Deprecated(_) => true,
            NodeStatus::Active => false,
        }
    }
}

// ---------------------------------------------------------------- signatures

#[derive(Debug, Eq, PartialEq)]
pub struct TypedParam {
    pub name: String,
    pub type_annotation: String,
    pub has_default: bool,
}

pub struct TypedParamV {
    pub name: Seq<char>,
    pub type_annotation: Seq<char>,
    pub has_default: bool,
}

impl View for TypedParam {
    type V = TypedParamV;

    open spec fn view(&self) -> TypedParamV {
        TypedParamV {
            name: self.name@,
            type_annotation: self.type_annotation@,
            has_default: self.has_default,
        }
    }
}

impl Clone for TypedParam {
    fn clone(&self) -> (r: Self)
        ensures
            r == *self,
    {
        TypedParam {
            name: self.name.clone(),
            type_annotation: self.type_annotation.clone(),
            has_default: self.has_default,
        }
    }
}

#[derive(Debug, Eq, PartialEq)]
pub struct PartialParam {
    pub name: String,
    pub type_annotation: Option<String>,
    pub has_default: bool,
}

pub struct PartialParamV {
    pub name: Seq<char>,
    pub type_annotation: Option<Seq<char>>,
    pub has_default: bool,
}

pub open spec fn text_option_view(t: Option<String>) -> Option<Seq<char>> {
    match t {
        Some(v) => Some(v@),
        None => None,
    }
}

impl View for PartialParam {
    type V = PartialParamV;

    open spec fn view(&self) -> PartialParamV {
        PartialParamV {
            name: self.name@,
            type_annotation: text_option_view(self.type_annotation),
            has_default: self.has_default,
        }
    }
}

pub fn clone_text_option(t: &Option<String>) -> (r: Option<String>)
    ensures
        r == *t,
{
    match t {
        Some(v) => Some(v.clone()),
        None => None,
    }
}

impl Clone for PartialParam {
    fn clone(&self) -> (r: Self)
        ensures
            r == *self,
    {
        PartialParam {
            name: self.name.clone(),
            type_annotation: clone_text_option(&self.type_annotation),
            has_default: self.has_default,
        }
    }
}

/// A callable's signature; never optional, parsers emit the least specific
/// variant that fits.
#[derive(Debug, Eq, PartialEq)]
#[allow(inconsistent_fields)]
pub enum Signature {
    Typed { params: Vec<TypedParam>, return_type: String, is_async: bool, is_generic: bool },
    PartiallyTyped { params: Vec<PartialParam>, return_type: Option<String>, is_async: bool },
    Untyped { arity: Option<u8> },
}

#[allow(inconsistent_fields)]
pub enum SignatureV {
    Typed {
        params: Seq<TypedParamV>,
        return_type: Seq<char>,
        is_async: bool,
        is_generic: bool,
    },
    PartiallyTyped {
        params: Seq<PartialParamV>,
        return_type: Option<Seq<char>>,
        is_async: bool,
    },
    Untyped { arity: Option<u8> },
}

impl View for Signature {
    type V = SignatureV;

    open spec fn view(&self) -> SignatureV {
        match self {
            Signature::Typed { params, return_type, is_async, is_generic } => SignatureV::Typed {
                params: params@.map_values(|p: TypedParam| p@),
                return_type: return_type@,
                is_async: *is_async,
                is_generic: *is_generic,
            },
            Signature::PartiallyTyped { params, return_type, is_async } =>
                SignatureV::PartiallyTyped {
                params: params@.map_values(|p: PartialParam| p@),
                return_type: text_option_view(*return_type),
                is_async: *is_async,
            },
            Signature::Untyped { arity } => SignatureV::Untyped { arity: *arity },
        }
    }
}

/// The parameter count of a signature, where it has one.
pub open spec fn arity_of(s: SignatureV) -> Option<int> {
    match s {
        SignatureV::Typed { params, .. } => Some(params.len() as int),
        SignatureV::PartiallyTyped { params, .. } => Some(params.len() as int),
        SignatureV::Untyped { arity } => match arity {
            Some(a) => Some(a as int),
            None => None,
        },
    }
}

/// The parameter names of a signature, where it lists its parameters.
pub open spec fn param_names_of(s: SignatureV) -> Option<Seq<Seq<char>>> {
    match s {
        SignatureV::Typed { params, .. } => Some(params.map_values(|p: TypedParamV| p.name)),
        SignatureV::PartiallyTyped { params, .. } => Some(
            params.map_values(|p: PartialParamV| p.name),
        ),
        SignatureV::Untyped { .. } => None,
    }
}

pub open spec fn is_structurally_comparable_sig(s: SignatureV) -> bool {
    s is Typed || s is PartiallyTyped
}

impl Signature {
    pub fn is_structurally_comparable(&self) -> (r: bool)
        ensures
            r == is_structurally_comparable_sig(self@),
    {
        match self {
            Signature::Typed { .. } => true,
            Signature::PartiallyTyped { .. } => true,
            Signature::Untyped { .. } => false,
        }
    }

    pub fn arity(&self) -> (r: Option<usize>)
        ensures
            match r {
                Some(v) => arity_of(self@) == Some(v as int),
                None => arity_of(self@) is None,
            },
    {
        match self {
            Signature::Typed { params, .. } => Some(params.len()),
            Signature::PartiallyTyped { params, .. } => Some(params.len()),
            Signature::Untyped { arity } => match arity {
                Some(a) => Some(*a as usize),
                None => None,
            },
        }
    }

    pub fn param_names(&self) -> (r: Option<Vec<&str>>)
        ensures
            match param_names_of(self@) {
                Some(names) => r matches Some(v) && v@.map_values(|s: &str| s@) == names,
                None => r is None,
            },
    {
        match self {
            Signature::Typed { params, .. } => {
                let mut names: Vec<&str> = Vec::new();
                let mut i: usize = 0;
                while i < params.len()
                    invariant
                        i <= params@.len(),
                        names@.len() == i,
                        forall|j: int| 0 <= j < i ==> (#[trigger] names@[j])@ == params@[j].name@,
                    decreases params@.len() - i,
                {
                    names.push(params[i].name.as_str());
                    i = i + 1;
                }
                assert(names@.map_values(|s: &str| s@) =~= params@.map_values(
                    |p: TypedParam| p@,
                ).map_values(|p: TypedParamV| p.name));
                Some(names)
            },
            Signature::PartiallyTyped { params, .. } => {
                let mut names: Vec<&str> = Vec::new();
                let mut i: usize = 0;
                while i < params.len()
                    invariant
                        i <= params@.len(),
                        names@.len() == i,
                        forall|j: int| 0 <= j < i ==> (#[trigger] names@[j])@ == params@[j].name@,
                    decreases params@.len() - i,
                {
                    names.push(params[i].name.as_str());
                    i = i + 1;
                }
                assert(names@.map_values(|s: &str| s@) =~= params@.map_values(
                    |p: PartialParam| p@,
                ).map_values(|p: PartialParamV| p.name));
                Some(names)
            },
            Signature::Untyped { .. } => None,
        }
    }
}

pub fn clone_typed_params(params: &Vec<TypedParam>) -> (r: Vec<TypedParam>)
    ensures
        r@ == params@,
{
    let mut r: Vec<TypedParam> = Vec::new();
    let mut i: usize = 0;
    while i < params.len()
        invariant
            i <= params@.len(),
            r@ == params@.take(i as int),
        decreases params@.len() - i,
    {
        r.push(params[i].clone());
        i = i + 1;
        assert(r@ =~= params@.take(i as int));
    }
    assert(params@.take(params@.len() as int) =~= params@);
    r
}

pub fn clone_partial_params(params: &Vec<PartialParam>) -> (r: Vec<PartialParam>)
    ensures
        r@ == params@,
{
    let mut r: Vec<PartialParam> = Vec::new();
    let mut i: usize = 0;
    while i < params.len()
        invariant
            i <= params@.len(),
            r@ == params@.take(i as int),
        decreases params@.len() - i,
    {
        r.push(params[i].clone());
        i = i + 1;
        assert(r@ =~= params@.take(i as int));
    }
    assert(params@.take(params@.len() as int) =~= params@);
    r
}

impl Clone for Signature {
    fn clone(&self) -> (r: Self)
        ensures
            r@ == self@,
    {
        match self {
            Signature::Typed { params, return_type, is_async, is_generic } => Signature::Typed {
                params: clone_typed_params(params),
                return_type: return_type.clone(),
                is_async: *is_async,
                is_generic: *is_generic,
            },
            Signature::PartiallyTyped { params, return_type, is_async } =>
                Signature::PartiallyTyped {
                params: clone_partial_params(params),
                return_type: clone_text_option(return_type),
                is_async: *is_async,
            },
            Signature::Untyped { arity } => Signature::Untyped { arity: *arity },
        }
    }
}

// ---------------------------------------------------------------- Node

#[derive(Debug, Eq, PartialEq)]
pub struct Node {
    pub id: NodeId,
    pub language: String,
    pub name: String,
    pub fqn: String,
    pub kind: NodeKind,
    pub file_path: String,
    pub location: SourceLocation,
    pub status: NodeStatus,
    pub signature: Signature,
    pub body_hash: String,
    pub introduced_at_version: GraphVersion,
}

pub struct NodeV {
    pub id: Seq<char>,
    pub language: Seq<char>,
    pub name: Seq<char>,
    pub fqn: Seq<char>,
    pub kind: NodeKindV,
    pub file_path: Seq<char>,
    pub location: SourceLocation,
    pub status: NodeStatusV,
    pub signature: SignatureV,
    pub body_hash: Seq<char>,
    pub introduced_at_version: u64,
}

impl View for Node {
    type V = NodeV;

    open spec fn view(&self) -> NodeV {
        NodeV {
            id: self.id@,
            language: self.language@,
            name: self.name@,
            fqn: self.fqn@,
            kind: self.kind@,
            file_path: self.file_path@,
            location: self.location,
            status: self.status@,
            signature: self.signature@,
            body_hash: self.body_hash@,
            introduced_at_version: self.introduced_at_version@,
        }
    }
}

impl Clone for Node {
    fn clone(&self) -> (r: Self)
        ensures
            r@ == self@,
    {
        Node {
            id: self.id.clone(),
            language: self.language.clone(),
            name: self.name.clone(),
            fqn: self.fqn.clone(),
            kind: self.kind.clone(),
            file_path: self.file_path.clone(),
            location: self.location.clone(),
            status: self.status.clone(),
            signature: self.signature.clone(),
            body_hash: self.body_hash.clone(),
            introduced_at_version: self.introduced_at_version,
        }
    }
}

/// A node whose id is the one its language and fully qualified name give.
pub open spec fn node_id_consistent(n: NodeV) -> bool {
    n.id == node_id_of(n.language, n.fqn)
}

impl Node {
    /// Accepts the node only if its id matches `"{language}::{fqn}"`.
    pub fn validate(self) -> (r: Result<Node, SchemaError>)
        ensures
            node_id_consistent(self@) ==> r == Ok::<Node, SchemaError>(self) && is_canonical_id(
                self@.id,
            ),
            !node_id_consistent(self@) ==> (r matches Err(
                SchemaError::NodeIdMismatch { provided, expected },
            ) && provided == self.id && expected@ == node_id_of(self@.language, self@.fqn)),
    {
        let expected = NodeId::new(self.language.as_str(), self.fqn.as_str());
        if !self.id.same_as(&expected) {
            return Err(SchemaError::NodeIdMismatch { provided: self.id, expected });
        }
        Ok(self)
    }
}

// ---------------------------------------------------------------- edges

#[derive(Clone, Copy, Debug, PartialEq, Eq, Structural)]
pub enum EdgeKind {
    Calls,
    Imports,
    Inherits,
    Implements,
    Instantiates,
    RuntimeVerified,
}

#[derive(Clone, Copy, Debug, PartialEq, Eq, Structural)]
pub enum ResolutionMethod {
    Static,
    TypeInferred,
    Heuristic,
    Runtime,
}

/// Static and runtime resolutions are exact: their confidence is fixed at 1.0.
pub open spec fn is_exact_resolution(r: ResolutionMethod) -> bool {
    r is Static || r is Runtime
}

/// The confidence rules every edge obeys.
pub open spec fn edge_confidence_ok(confidence: int, resolution: ResolutionMethod) -> bool {
    &&& 0 <= confidence <= CONFIDENCE_SCALE
    &&& is_exact_resolution(resolution) ==> confidence == CONFIDENCE_SCALE
}

#[derive(Debug, PartialEq)]
pub struct Edge {
    pub source: NodeId,
    pub target: NodeId,
    pub kind: EdgeKind,
    pub(crate) confidence: i64,
    pub resolution: ResolutionMethod,
    pub introduced_at_version: GraphVersion,
}

pub struct EdgeV {
    pub source: Seq<char>,
    pub target: Seq<char>,
    pub kind: EdgeKind,
    pub confidence: int,
    pub resolution: ResolutionMethod,
    pub introduced_at_version: u64,
}

impl View for Edge {
    type V = EdgeV;

    closed spec fn view(&self) -> EdgeV {
        EdgeV {
            source: self.source@,
            target: self.target@,
            kind: self.kind,
            confidence: self.confidence as int,
            resolution: self.resolution,
            introduced_at_version: self.introduced_at_version@,
        }
    }
}

/// An edge's view is made of its fields' views.
pub(crate) broadcast proof fn lemma_edge_view(e: Edge)
    ensures
        #[trigger] e@ == (EdgeV {
            source: e.source@,
            target: e.target@,
            kind: e.kind,
            confidence: e.confidence as int,
            resolution: e.resolution,
            introduced_at_version: e.introduced_at_version@,
        }),
{
}

impl Clone for Edge {
    fn clone(&self) -> (r: Self)
        ensures
            r == *self,
    {
        Edge {
            source: self.source.clone(),
            target: self.target.clone(),
            kind: self.kind,
            confidence: self.confidence,
            resolution: self.resolution,
            introduced_at_version: self.introduced_at_version,
        }
    }
}

impl Edge {
    /// Builds an edge; the confidence must lie in `[0, 1.0]`, and is fixed at
    /// 1.0 for static and runtime resolutions.
    pub fn new(
        source: NodeId,
        target: NodeId,
        kind: EdgeKind,
        confidence: i64,
        resolution: ResolutionMethod,
        introduced_at_version: GraphVersion,
    ) -> (r: Result<Edge, SchemaError>)
        ensures
            !(0 <= confidence <= CONFIDENCE_SCALE) ==> r == Err::<Edge, SchemaError>(
                SchemaError::InvalidConfidence(confidence),
            ),
            (0 <= confidence <= CONFIDENCE_SCALE) && is_exact_resolution(resolution)
                && confidence != CONFIDENCE_SCALE ==> r == Err::<Edge, SchemaError>(
                SchemaError::ConfidenceMismatch { resolution, confidence },
            ),
            edge_confidence_ok(confidence as int, resolution) ==> (r matches Ok(e) && e@
                == (EdgeV {
                source: source@,
                target: target@,
                kind,
                confidence: confidence as int,
                resolution,
                introduced_at_version: introduced_at_version@,
            })),
    {
        if !(0 <= confidence && confidence <= CONFIDENCE_SCALE) {
            return Err(SchemaError::InvalidConfidence(confidence));
        }
        if (resolution == ResolutionMethod::Static || resolution == ResolutionMethod::Runtime)
            && confidence != CONFIDENCE_SCALE {
            return Err(SchemaError::ConfidenceMismatch { resolution, confidence });
        }
        Ok(Edge { source, target, kind, confidence, resolution, introduced_at_version })
    }

    pub fn confidence(&self) -> (r: i64)
        ensures
            r == self@.confidence,
    {
        self.confidence
    }

    /// Whether the edge's confidence falls below the escalation threshold.
    pub fn requires_escalation(&self, escalation_confidence_threshold: i64) -> (r: bool)
        ensures
            r == (self@.confidence < escalation_confidence_threshold),
    {
        self.confidence < escalation_confidence_threshold
    }

    /// Points the edge at another target, keeping everything else.
    pub fn retarget(&mut self, target: NodeId)
        ensures
            final(self)@ == (EdgeV { target: target@, ..old(self)@ }),
    {
        self.target = target;
    }
}

/// An edge as a caller proposes it, before the schema has checked it.
#[derive(Debug, PartialEq)]
pub struct EdgeDraft {
    pub source: NodeId,
    pub target: NodeId,
    pub kind: EdgeKind,
    pub confidence: i64,
    pub resolution: ResolutionMethod,
    pub introduced_at_version: GraphVersion,
}

impl Clone for EdgeDraft {
    fn clone(&self) -> (r: Self)
        ensures
            r == *self,
    {
        EdgeDraft {
            source: self.source.clone(),
            target: self.target.clone(),
            kind: self.kind,
            confidence: self.confidence,
            resolution: self.resolution,
            introduced_at_version: self.introduced_at_version,
        }
    }
}

// ---------------------------------------------------------------- confidence configuration

#[derive(Clone, Copy, Debug, PartialEq)]
pub struct ConfidenceRange {
    pub min: i64,
    pub max: i64,
}

impl ConfidenceRange {
    pub fn new(min: i64, max: i64) -> (r: Result<ConfidenceRange, SchemaError>)
        ensures
            min > max ==> r == Err::<ConfidenceRange, SchemaError>(
                SchemaError::InvalidConfidenceRange { min, max },
            ),
            min <= max ==> r == Ok::<ConfidenceRange, SchemaError>(ConfidenceRange { min, max }),
    {
        if min > max {
            return Err(SchemaError::InvalidConfidenceRange { min, max });
        }
        Ok(ConfidenceRange { min, max })
    }

    pub fn contains(&self, value: i64) -> (r: bool)
        ensures
            r == (self.min <= value <= self.max),
    {
        self.min <= value && value <= self.max
    }
}

#[derive(Debug, PartialEq)]
pub struct ConfidenceConfig {
    pub type_inferred_range: ConfidenceRange,
    pub heuristic_range: ConfidenceRange,
    pub is_calibrated: bool,
    pub calibration_sample_size: u32,
    pub calibrated_at: Option<String>,
}

impl Clone for ConfidenceConfig {
    fn clone(&self) -> (r: Self)
        ensures
            r == *self,
    {
        ConfidenceConfig {
            type_inferred_range: self.type_inferred_range,
            heuristic_range: self.heuristic_range,
            is_calibrated: self.is_calibrated,
            calibration_sample_size: self.calibration_sample_size,
            calibrated_at: clone_text_option(&self.calibrated_at),
        }
    }
}

/// The text of the warning for configurations that were never calibrated.
pub open spec fn uncalibrated_warning() -> Seq<char> {
    "ConfidenceConfig is still using default feasibility-spike ranges. Run calibration before relying on escalation routing."@
}

impl ConfidenceConfig {
    pub fn startup_warning(&self) -> (r: Option<String>)
        ensures
            self.is_calibrated ==> r is None,
            !self.is_calibrated ==> (r matches Some(w) && w@ == uncalibrated_warning()),
    {
        if self.is_calibrated {
            None
        } else {
            Some(
                String::from_str(
                    "ConfidenceConfig is still using default feasibility-spike ranges. Run calibration before relying on escalation routing.",
                ),
            )
        }
    }
}

impl Default for ConfidenceConfig {
    fn default() -> (r: Self)
        ensures
            r.type_inferred_range == (ConfidenceRange { min: 700_000, max: 900_000 }),
            r.heuristic_range == (ConfidenceRange { min: 300_000, max: 600_000 }),
            !r.is_calibrated,
            r.calibration_sample_size == 0,
            r.calibrated_at is None,
    {
        ConfidenceConfig {
            type_inferred_range: ConfidenceRange { min: 700_000, max: 900_000 },
            heuristic_range: ConfidenceRange { min: 300_000, max: 600_000 },
            is_calibrated: false,
            calibration_sample_size: 0,
            calibrated_at: None,
        }
    }
}

// ---------------------------------------------------------------- snapshots and summaries

#[derive(Debug, PartialEq)]
pub struct GraphSnapshot {
    pub baseline_version: GraphVersion,
    pub current_baseline_version: GraphVersion,
    pub pr_identifier: String,
}

impl Clone for GraphSnapshot {
    fn clone(&self) -> (r: Self)
        ensures
            r == *self,
    {
        GraphSnapshot {
            baseline_version: self.baseline_version,
            current_baseline_version: self.current_baseline_version,
            pr_identifier: self.pr_identifier.clone(),
        }
    }
}

impl GraphSnapshot {
    /// A snapshot is stale once the live baseline has moved past it.
    pub fn is_stale(&self) -> (r: bool)
        ensures
            r == (self.current_baseline_version@ > self.baseline_version@),
    {
        self.current_baseline_version.value() > self.baseline_version.value()
    }
}

#[derive(Debug, PartialEq)]
pub struct NodeSummary {
    pub id: NodeId,
    pub fqn: String,
    pub kind: NodeKind,
    pub confidence: i64,
    pub resolution: ResolutionMethod,
    pub source_available: bool,
}

pub struct NodeSummaryV {
    pub id: Seq<char>,
    pub fqn: Seq<char>,
    pub kind: NodeKindV,
    pub confidence: int,
    pub resolution: ResolutionMethod,
    pub source_available: bool,
}

impl View for NodeSummary {
    type V = NodeSummaryV;

    open spec fn view(&self) -> NodeSummaryV {
        NodeSummaryV {
            id: self.id@,
            fqn: self.fqn@,
            kind: self.kind@,
            confidence: self.confidence as int,
            resolution: self.resolution,
            source_available: self.source_available,
        }
    }
}

#[derive(Debug, PartialEq)]
pub struct SubgraphSummary {
    pub queried_node_id: NodeId,
    pub queried_node_fqn: String,
    pub total_callers: usize,
    pub total_callees: usize,
    pub high_confidence_callers: Vec<NodeSummary>,
    pub low_confidence_callers: Vec<NodeSummary>,
    pub high_confidence_callees: Vec<NodeSummary>,
    pub low_confidence_callees: Vec<NodeSummary>,
    pub truncated: bool,
    pub omitted_count: Option<usize>,
}

} // verus!
