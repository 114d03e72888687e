//! Error model for single-node GraphNet validation and mutation execution.
use vstd::prelude::*;

use crate::id::EntityId;
use crate::state::{StateRef, Version};

verus! {

/// Errors produced by the GraphNet execution engine.
#[derive(Debug, PartialEq, Eq)]
pub enum GraphError {
    /// Requested entity does not exist in the current graph state.
    EntityNotFound {
        /// Missing entity identifier.
        entity_id: EntityId,
    },
    /// Caller attempted to insert an entity that already exists.
    DuplicateEntity {
        /// Duplicate entity identifier.
        entity_id: EntityId,
    },
    /// Mutation was prepared against an older or otherwise unexpected version.
    VersionConflict {
        /// Entity for which the optimistic version check failed.
        entity_id: EntityId,
        /// Version expected by the mutation.
        expected: Version,
        /// Current version stored by GraphNet.
        actual: Version,
    },
    /// Mutation references a state version that does not exist in history.
    StateReferenceNotFound {
        /// Invalid dependency reference.
        state_ref: StateRef,
    },
    /// Mutation contains two writes to the same logical entity.
    DuplicateWrite {
        /// Entity written more than once by the same mutation.
        entity_id: EntityId,
    },
    /// Mutation contains no writes and therefore cannot create a state transition.
    EmptyMutation,
}

} // verus!
