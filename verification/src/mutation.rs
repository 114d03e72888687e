//! Mutation commands and entity updates submitted to the GraphNet engine.
use vstd::prelude::*;

use crate::id::{is_v4_bits, EntityId, MutationId};
use crate::state::{Payload, StateRef, Value, Version};

verus! {

/// Requested update of one entity as part of an atomic mutation.
#[derive(Debug, Clone, PartialEq, Eq)]
pub struct EntityUpdate {
    /// Entity whose state should be replaced.
    pub entity_id: EntityId,
    /// Version the caller observed when preparing the mutation.
    pub expected_version: Version,
    /// Complete payload of the next entity version.
    pub new_payload: Payload,
}

/// An entity update as a mathematical value: its payload is taken as a map.
pub struct EntityUpdateView {
    pub entity_id: EntityId,
    pub expected_version: Version,
    pub new_payload: Map<String, Value>,
}

impl View for EntityUpdate {
    type V = EntityUpdateView;

    open spec fn view(&self) -> EntityUpdateView {
        EntityUpdateView {
            entity_id: self.entity_id,
            expected_version: self.expected_version,
            new_payload: self.new_payload@,
        }
    }
}

impl EntityUpdate {
    /// Creates a new entity update guarded by an expected version.
    pub fn new(entity_id: EntityId, expected_version: Version, new_payload: Payload) -> (update:
        Self)
        ensures
            update.entity_id == entity_id,
            update.expected_version == expected_version,
            update.new_payload == new_payload,
    {
        EntityUpdate { entity_id, expected_version, new_payload }
    }
}

/// Atomic GraphNet mutation.
///
/// `reads` records the immutable state versions used to derive the operation.
/// `writes` contains complete next-state payloads and expected version guards.
#[derive(Debug, Clone, PartialEq, Eq)]
pub struct Mutation {
    /// Unique identifier of the mutation.
    pub id: MutationId,
    /// Immutable state versions read by the operation.
    pub reads: Vec<StateRef>,
    /// Entity state replacements requested by the operation.
    pub writes: Vec<EntityUpdate>,
}

/// A mutation as a mathematical value.
pub struct MutationView {
    pub id: MutationId,
    pub reads: Seq<StateRef>,
    pub writes: Seq<EntityUpdateView>,
}

impl View for Mutation {
    type V = MutationView;

    open spec fn view(&self) -> MutationView {
        MutationView {
            id: self.id,
            reads: self.reads@,
            writes: self.writes@.map_values(|update: EntityUpdate| update@),
        }
    }
}

impl Mutation {
    /// Creates a mutation with a generated identifier.
    pub fn new(reads: Vec<StateRef>, writes: Vec<EntityUpdate>) -> (mutation: Self)
        ensures
            is_v4_bits(mutation.id@),
            mutation.reads == reads,
            mutation.writes == writes,
    {
        Mutation { id: MutationId::new(), reads, writes }
    }

    /// Creates a mutation with an explicitly supplied identifier.
    pub fn with_id(id: MutationId, reads: Vec<StateRef>, writes: Vec<EntityUpdate>) -> (mutation:
        Self)
        ensures
            mutation.id == id,
            mutation.reads == reads,
            mutation.writes == writes,
    {
        Mutation { id, reads, writes }
    }
}

} // verus!
