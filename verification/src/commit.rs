//! Commit records and state-transition descriptions produced by accepted mutations.
use vstd::prelude::*;

use crate::id::{EntityId, MutationId, NodeId};
use crate::state::{StateRef, Version};

verus! {

/// Description of one entity version transition produced by a commit.
#[derive(Debug, Clone, Copy, PartialEq, Eq)]
pub struct StateTransition {
    /// Logical entity that changed.
    pub entity_id: EntityId,
    /// Version observed before the mutation.
    pub from_version: Version,
    /// Version created by the mutation.
    pub to_version: Version,
    /// Identifier of the newly created immutable state node.
    pub new_node_id: NodeId,
}

/// Logical result of an accepted mutation.
///
/// Commits are kept in memory only, but the record is shaped so that it can be
/// appended to a log or replicated to peers.
#[derive(Debug, Clone, PartialEq, Eq)]
pub struct Commit {
    /// Mutation that produced this commit.
    pub mutation_id: MutationId,
    /// Explicit immutable states the mutation depended on.
    pub dependencies: Vec<StateRef>,
    /// State transitions created atomically by the mutation.
    pub transitions: Vec<StateTransition>,
}

/// A commit as a mathematical value.
pub struct CommitView {
    pub mutation_id: MutationId,
    pub dependencies: Seq<StateRef>,
    pub transitions: Seq<StateTransition>,
}

impl View for Commit {
    type V = CommitView;

    open spec fn view(&self) -> CommitView {
        CommitView {
            mutation_id: self.mutation_id,
            dependencies: self.dependencies@,
            transitions: self.transitions@,
        }
    }
}

} // verus!
