//! Core domain model and in-memory execution engine of GraphNet.
//!
//! The engine keeps immutable entity versions, explicit mutation dependencies,
//! atomic multi-entity state transitions, optimistic version checks, commit
//! records and the complete history of every entity, all in memory on a single
//! node.

pub mod account;
pub mod commit;
pub mod entity;
pub mod error;
pub mod graph;
pub mod id;
pub mod laws;
pub mod mutation;
pub mod state;

pub use commit::{Commit, StateTransition};
pub use entity::Entity;
pub use error::GraphError;
pub use graph::GraphState;
pub use id::{EntityId, MutationId, NodeId};
pub use mutation::{EntityUpdate, Mutation};
pub use state::{Payload, StateNode, StateRef, Value, Version};
