//! Logical entity definition used to create the first version of GraphNet state.
use vstd::prelude::*;

use crate::id::{is_v4_bits, EntityId};
use crate::state::Payload;

verus! {

/// Logical entity introduced into GraphNet.
///
/// An entity owns a stable [`EntityId`] and an initial payload. Once inserted,
/// future changes are represented as immutable [`crate::StateNode`] versions.
#[derive(Debug, Clone, PartialEq, Eq)]
pub struct Entity {
    /// Stable logical identifier of the entity.
    pub id: EntityId,
    /// Application-defined type name, for example `Account` or `Order`.
    pub entity_type: String,
    /// Initial materialized state stored as version 1.
    pub initial_state: Payload,
}

impl Entity {
    /// Creates a new entity with a generated identifier.
    pub fn new(entity_type: &str, initial_state: Payload) -> (entity: Self)
        ensures
            is_v4_bits(entity.id@),
            entity.entity_type@ == entity_type@,
            entity.initial_state == initial_state,
    {
        Entity { id: EntityId::new(), entity_type: entity_type.to_owned(), initial_state }
    }

    /// Creates an entity with an explicitly supplied identifier.
    ///
    /// This is useful for deterministic tests and for import or replication
    /// scenarios where the identifier is already known.
    pub fn with_id(id: EntityId, entity_type: &str, initial_state: Payload) -> (entity: Self)
        ensures
            entity.id == id,
            entity.entity_type@ == entity_type@,
            entity.initial_state == initial_state,
    {
        Entity { id, entity_type: entity_type.to_owned(), initial_state }
    }
}

} // verus!
