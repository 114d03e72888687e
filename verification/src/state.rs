//! Immutable state versions, payload values and references between GraphNet nodes.
use std::cmp::Ordering;
use std::collections::BTreeMap;
use vstd::prelude::*;
use vstd::std_specs::cmp::PartialOrdSpec;

use crate::id::{is_v4_bits, EntityId, MutationId, NodeId};

verus! {

/// Monotonically increasing logical version of an entity state.
///
/// Each entity counts its versions with a plain integer, starting at
/// [`Version::INITIAL`].
#[derive(Debug, Clone, Copy, PartialEq, Eq, Ord, Hash)]
pub struct Version(u64);

impl View for Version {
    type V = u64;

    /// The version number.
    closed spec fn view(&self) -> u64 {
        self.0
    }
}

impl Version {
    /// Initial version assigned when an entity is first inserted into the graph.
    pub fn initial() -> (version: Self)
        ensures
            version@ == 1,
    {
        Version(1)
    }

    /// Creates a version from a raw integer value.
    pub fn new(value: u64) -> (version: Self)
        ensures
            version@ == value,
    {
        Version(value)
    }

    /// Returns the next sequential version.
    pub fn next(self) -> (version: Self)
        requires
            self@ < u64::MAX,
        ensures
            version@ == self@ + 1,
            self.partial_cmp_spec(&version) == Some(Ordering::Less),
    {
        Version(self.0 + 1)
    }

    /// Returns the underlying integer value.
    pub fn value(self) -> (value: u64)
        ensures
            value == self@,
    {
        self.0
    }

    /// A version is determined by its number.
    pub proof fn lemma_view_determines(self, other: Self)
        ensures
            self@ == other@ ==> self == other,
    {
    }
}

impl PartialOrd for Version {
    /// Versions are ordered by their numbers.
    fn partial_cmp(&self, other: &Self) -> (ordering: Option<Ordering>) {
        if self.0 < other.0 {
            Some(Ordering::Less)
        } else if self.0 == other.0 {
            Some(Ordering::Equal)
        } else {
            Some(Ordering::Greater)
        }
    }
}

impl vstd::std_specs::cmp::PartialOrdSpecImpl for Version {
    open spec fn obeys_partial_cmp_spec() -> bool {
        true
    }

    open spec fn partial_cmp_spec(&self, other: &Self) -> Option<Ordering> {
        if self@ < other@ {
            Some(Ordering::Less)
        } else if self@ == other@ {
            Some(Ordering::Equal)
        } else {
            Some(Ordering::Greater)
        }
    }
}

/// Versions compare as their numbers do: a version is below, equal to or
/// above another exactly when its number is.
pub proof fn lemma_versions_compare_by_number(a: Version, b: Version)
    ensures
        a.partial_cmp_spec(&b) == Some(Ordering::Less) <==> a@ < b@,
        a.partial_cmp_spec(&b) == Some(Ordering::Equal) <==> a == b,
        a.partial_cmp_spec(&b) == Some(Ordering::Greater) <==> a@ > b@,
        a.partial_cmp_spec(&b) is Some,
{
    a.lemma_view_determines(b);
}

/// Generic scalar value stored inside an entity payload.
#[derive(Debug, Clone, PartialEq, Eq)]
pub enum Value {
    /// Signed 64-bit integer value.
    Int(i64),
    /// UTF-8 text value.
    String(String),
    /// Boolean value.
    Bool(bool),
    /// Arbitrary binary value.
    Bytes(Vec<u8>),
}

/// Deterministically ordered set of named values representing entity state.
pub type Payload = BTreeMap<String, Value>;

/// Stable reference to one immutable version of an entity.
#[derive(Debug, Clone, Copy, PartialEq, Eq, Hash)]
pub struct StateRef {
    /// Identifier of the logical entity.
    pub entity_id: EntityId,
    /// Exact version referenced by a mutation.
    pub version: Version,
}

impl StateRef {
    /// Creates a new state reference.
    pub fn new(entity_id: EntityId, version: Version) -> (state_ref: Self)
        ensures
            state_ref.entity_id == entity_id,
            state_ref.version == version,
    {
        StateRef { entity_id, version }
    }
}

/// Immutable state node representing one committed version of an entity.
#[derive(Debug, Clone, PartialEq, Eq)]
pub struct StateNode {
    /// Unique identifier of this immutable state node.
    pub id: NodeId,
    /// Logical entity whose state this node represents.
    pub entity_id: EntityId,
    /// Sequential version of the logical entity.
    pub version: Version,
    /// Materialized payload at this version.
    pub payload: Payload,
    /// Previous version of the same entity, if one exists.
    pub previous_version: Option<Version>,
    /// Mutation that created this state node, or `None` for the initial state.
    pub caused_by: Option<MutationId>,
}

/// A state node as a mathematical value: its payload is taken as a map.
pub struct StateNodeView {
    pub id: NodeId,
    pub entity_id: EntityId,
    pub version: Version,
    pub payload: Map<String, Value>,
    pub previous_version: Option<Version>,
    pub caused_by: Option<MutationId>,
}

impl View for StateNode {
    type V = StateNodeView;

    open spec fn view(&self) -> StateNodeView {
        StateNodeView {
            id: self.id,
            entity_id: self.entity_id,
            version: self.version,
            payload: self.payload@,
            previous_version: self.previous_version,
            caused_by: self.caused_by,
        }
    }
}

impl StateNodeView {
    /// The reference that names this version of its entity.
    pub open spec fn state_ref(self) -> StateRef {
        StateRef { entity_id: self.entity_id, version: self.version }
    }
}

/// The reference of a state node names the node's own entity and its own
/// version (not the version it replaced).
pub proof fn lemma_state_ref_names_node(node: StateNodeView)
    ensures
        node.state_ref().entity_id == node.entity_id,
        node.state_ref().version == node.version,
        node.state_ref().version@ == node.version@,
{
}

impl StateNode {
    /// Creates the initial state node of a newly inserted entity.
    pub fn initial(entity_id: EntityId, payload: Payload) -> (node: Self)
        ensures
            is_v4_bits(node.id@),
            node.entity_id == entity_id,
            node.version@ == 1,
            node.payload == payload,
            node.previous_version.is_none(),
            node.caused_by.is_none(),
    {
        StateNode {
            id: NodeId::new(),
            entity_id,
            version: Version::initial(),
            payload,
            previous_version: None,
            caused_by: None,
        }
    }

    /// Creates the next immutable state node produced by a mutation.
    pub fn successor(current: &Self, payload: Payload, mutation_id: MutationId) -> (node: Self)
        requires
            current.version@ < u64::MAX,
        ensures
            is_v4_bits(node.id@),
            node.entity_id == current.entity_id,
            node.version@ == current.version@ + 1,
            node.payload == payload,
            node.previous_version == Some(current.version),
            node.caused_by == Some(mutation_id),
    {
        StateNode {
            id: NodeId::new(),
            entity_id: current.entity_id,
            version: current.version.next(),
            payload,
            previous_version: Some(current.version),
            caused_by: Some(mutation_id),
        }
    }

    /// Returns a compact reference to this state node.
    pub fn as_ref(&self) -> (state_ref: StateRef)
        ensures
            state_ref == self@.state_ref(),
            state_ref.entity_id == self.entity_id,
            state_ref.version == self.version,
    {
        StateRef::new(self.entity_id, self.version)
    }
}

} // verus!
