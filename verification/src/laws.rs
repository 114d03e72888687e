//! Properties of the engine that span operations: what a read gives back of a
//! write, what history keeps, and which mutations are refused.
use vstd::prelude::*;

use crate::commit::CommitView;
use crate::entity::Entity;
use crate::error::GraphError;
use crate::graph::{history_wf, successor_node, GraphView};
use crate::mutation::MutationView;
use crate::state::StateRef;

verus! {

/// The current version of an entity is the length of its history, and the
/// current node belongs to the entity.
pub proof fn lemma_current_version_counts_history(graph: GraphView, entity: u128)
    requires
        graph.wf(),
        graph.contains_entity(entity),
    ensures
        graph.current(entity).version@ == graph.history[entity].len(),
        graph.current(entity).entity_id@ == entity,
{
    assert(history_wf(entity, graph.history[entity], graph.mutations));
    let nodes = graph.history[entity];
    assert(nodes[nodes.len() - 1].version@ == nodes.len());
}

/// A state reference names a version in history exactly when its entity is
/// known and its version lies between 1 and the entity's current version.
pub proof fn lemma_state_ref_exists_iff_in_range(graph: GraphView, state_ref: StateRef)
    requires
        graph.wf(),
    ensures
        graph.state_ref_exists(state_ref) <==> {
            &&& graph.contains_entity(state_ref.entity_id@)
            &&& 1 <= state_ref.version@ <= graph.current(state_ref.entity_id@).version@
        },
{
    let entity = state_ref.entity_id@;
    if graph.contains_entity(entity) {
        lemma_current_version_counts_history(graph, entity);
        let nodes = graph.history[entity];
        assert(history_wf(entity, nodes, graph.mutations));
        if 1 <= state_ref.version@ <= graph.current(entity).version@ {
            let i = state_ref.version@ - 1;
            assert(nodes[i].version@ == state_ref.version@);
        }
    }
}

/// Inserting an entity keeps every history and every committed mutation.
pub proof fn lemma_inserted_extends(graph: GraphView, entity: Entity, post: GraphView)
    requires
        graph.inserted(entity, post),
    ensures
        graph.extended_by(post),
{
}

/// Applying a mutation keeps every history and every committed mutation:
/// versions are never rewritten or dropped.
pub proof fn lemma_applied_extends(
    graph: GraphView,
    mutation: MutationView,
    commit: CommitView,
    post: GraphView,
)
    requires
        graph.applied(mutation, commit, post),
    ensures
        graph.extended_by(post),
{
    assert forall|entity: u128| #[trigger] graph.history.contains_key(entity) implies {
        &&& post.history.contains_key(entity)
        &&& graph.history[entity].len() <= post.history[entity].len()
        &&& forall|i: int|
            0 <= i < graph.history[entity].len() ==> #[trigger] post.history[entity][i]
                == graph.history[entity][i]
    } by {
        if GraphView::writes_entity(mutation, entity) {
            let i = choose|i: int|
                0 <= i < mutation.writes.len() && (#[trigger] mutation.writes[i]).entity_id@
                    == entity;
            assert(post.history[entity] == graph.history[entity].push(
                successor_node(mutation, mutation.writes[i], commit.transitions[i]),
            ));
        }
    }
}

/// A version that is in history stays there once the graph is extended.
pub proof fn lemma_extension_keeps_state_refs(
    graph: GraphView,
    post: GraphView,
    state_ref: StateRef,
)
    requires
        graph.extended_by(post),
        graph.state_ref_exists(state_ref),
    ensures
        post.state_ref_exists(state_ref),
{
    let entity = state_ref.entity_id@;
    let i = choose|i: int|
        0 <= i < graph.history[entity].len() && (#[trigger] graph.history[entity][i]).version@
            == state_ref.version@;
    assert(post.history[entity][i] == graph.history[entity][i]);
}

/// After a mutation takes effect, the current state of each written entity is
/// the node its write created: the next version, with the written payload,
/// caused by the mutation; every other entity reads as before.
pub proof fn lemma_applied_current_states(
    graph: GraphView,
    mutation: MutationView,
    commit: CommitView,
    post: GraphView,
)
    requires
        graph.wf(),
        graph.validate(mutation) is Ok,
        graph.applied(mutation, commit, post),
    ensures
        forall|i: int|
            0 <= i < mutation.writes.len() ==> {
                let update = #[trigger] mutation.writes[i];
                let entity = update.entity_id@;
                &&& post.contains_entity(entity)
                &&& post.current(entity) == successor_node(
                    mutation,
                    update,
                    commit.transitions[i],
                )
                &&& post.current(entity).version@ == graph.current(entity).version@ + 1
                &&& post.current(entity).payload == update.new_payload
                &&& post.current(entity).caused_by == Some(mutation.id)
            },
        forall|entity: u128|
            graph.contains_entity(entity) && !GraphView::writes_entity(mutation, entity)
                ==> #[trigger] post.current(entity) == graph.current(entity),
{
    crate::graph::lemma_validate_ok(graph, mutation);
}

/// A mutation prepared on the versions that another mutation has since
/// replaced is refused: once a write to an entity took effect, no mutation
/// that writes the entity at its former version passes validation.
pub proof fn lemma_stale_mutation_refused(
    graph: GraphView,
    first: MutationView,
    commit: CommitView,
    post: GraphView,
    stale: MutationView,
    i: int,
    j: int,
)
    requires
        graph.wf(),
        graph.validate(first) is Ok,
        graph.applied(first, commit, post),
        0 <= i < first.writes.len(),
        0 <= j < stale.writes.len(),
        stale.writes[j].entity_id@ == first.writes[i].entity_id@,
        stale.writes[j].expected_version@ == graph.current(first.writes[i].entity_id@).version@,
    ensures
        post.validate(stale) is Err,
        j == 0 ==> post.validate(stale) == Err::<(), GraphError>(
            GraphError::VersionConflict {
                entity_id: stale.writes[0].entity_id,
                expected: stale.writes[0].expected_version,
                actual: post.current(stale.writes[0].entity_id@).version,
            },
        ),
{
    lemma_applied_current_states(graph, first, commit, post);
    let entity = first.writes[i].entity_id@;
    assert(post.current(entity).version@ == graph.current(entity).version@ + 1);
    crate::graph::lemma_validate_ok(post, stale);
    if post.validate(stale) is Ok {
        assert(post.current(stale.writes[j].entity_id@).version@
            == stale.writes[j].expected_version@);
    }
    if j == 0 {
        assert(post.write_error(stale.writes, 0) == Some(
            GraphError::VersionConflict {
                entity_id: stale.writes[0].entity_id,
                expected: stale.writes[0].expected_version,
                actual: post.current(stale.writes[0].entity_id@).version,
            },
        ));
    }
}

/// Mutations that write disjoint entities do not interfere: a mutation that
/// is valid stays valid after another mutation, writing none of its entities,
/// took effect.
pub proof fn lemma_disjoint_mutation_stays_valid(
    graph: GraphView,
    first: MutationView,
    commit: CommitView,
    post: GraphView,
    second: MutationView,
)
    requires
        graph.wf(),
        graph.validate(first) is Ok,
        graph.applied(first, commit, post),
        graph.validate(second) is Ok,
        forall|k: int|
            0 <= k < second.writes.len() ==> !GraphView::writes_entity(
                first,
                (#[trigger] second.writes[k]).entity_id@,
            ),
    ensures
        post.validate(second) is Ok,
{
    crate::graph::lemma_validate_ok(graph, second);
    crate::graph::lemma_validate_ok(post, second);
    lemma_applied_current_states(graph, first, commit, post);
    lemma_applied_extends(graph, first, commit, post);
    assert forall|k: int| 0 <= k < second.writes.len() implies {
        let update = #[trigger] second.writes[k];
        &&& post.contains_entity(update.entity_id@)
        &&& post.current(update.entity_id@).version@ == update.expected_version@
    } by {
        let entity = second.writes[k].entity_id@;
        assert(post.current(entity) == graph.current(entity));
    }
    assert forall|k: int| 0 <= k < second.reads.len() implies post.state_ref_exists(
        #[trigger] second.reads[k],
    ) by {
        lemma_extension_keeps_state_refs(graph, post, second.reads[k]);
    }
}

} // verus!

verus! {

proof fn lemma_first_write_error_found(
    graph: GraphView,
    writes: Seq<crate::mutation::EntityUpdateView>,
    i: int,
)
    requires
        0 <= i,
        graph.first_write_error(writes, i) is Some,
    ensures
        exists|j: int|
            i <= j < writes.len() && graph.write_error(writes, j) == graph.first_write_error(
                writes,
                i,
            ),
    decreases writes.len() - i,
{
    if graph.write_error(writes, i) is None {
        lemma_first_write_error_found(graph, writes, i + 1);
    }
}

proof fn lemma_first_read_error_found(graph: GraphView, reads: Seq<StateRef>, i: int)
    requires
        0 <= i,
        graph.first_read_error(reads, i) is Some,
    ensures
        exists|k: int|
            i <= k < reads.len() && !graph.state_ref_exists(reads[k])
                && graph.first_read_error(reads, i) == Some(
                GraphError::StateReferenceNotFound { state_ref: reads[k] },
            ),
    decreases reads.len() - i,
{
    if graph.state_ref_exists(reads[i]) {
        lemma_first_read_error_found(graph, reads, i + 1);
    }
}

/// Every refusal names a real reason found in the mutation and the graph:
/// an empty mutation has no writes; a duplicate write names an entity written
/// twice; an unknown entity is written but not in the graph; a version
/// conflict names a written entity, the version its write expected, and that
/// entity's actual current version, which differs; an unknown dependency is a
/// read whose entity has no node of the read version. Inserting is never the
/// reason validation gives.
pub proof fn lemma_refusals_name_their_reason(graph: GraphView, mutation: MutationView)
    ensures
        match graph.validate(mutation) {
            Ok(()) => mutation.writes.len() > 0,
            Err(GraphError::EmptyMutation) => mutation.writes.len() == 0,
            Err(GraphError::DuplicateWrite { entity_id }) => exists|i: int, j: int|
                0 <= i < j < mutation.writes.len() && (#[trigger] mutation.writes[i]).entity_id@
                    == entity_id@ && (#[trigger] mutation.writes[j]).entity_id == entity_id,
            Err(GraphError::EntityNotFound { entity_id }) => exists|i: int|
                0 <= i < mutation.writes.len() && (#[trigger] mutation.writes[i]).entity_id
                    == entity_id && !graph.history.contains_key(entity_id@),
            Err(GraphError::VersionConflict { entity_id, expected, actual }) => exists|i: int|
                0 <= i < mutation.writes.len() && {
                    let update = #[trigger] mutation.writes[i];
                    &&& update.entity_id == entity_id
                    &&& update.expected_version == expected
                    &&& graph.history.contains_key(entity_id@)
                    &&& actual == graph.history[entity_id@].last().version
                    &&& actual@ != expected@
                },
            Err(GraphError::StateReferenceNotFound { state_ref }) => exists|k: int|
                0 <= k < mutation.reads.len() && #[trigger] mutation.reads[k] == state_ref && !(
                graph.history.contains_key(state_ref.entity_id@) && exists|n: int|
                    0 <= n < graph.history[state_ref.entity_id@].len() && (
                    #[trigger] graph.history[state_ref.entity_id@][n]).version@
                    == state_ref.version@),
            Err(GraphError::DuplicateEntity { .. }) => false,
        },
{
    let writes = mutation.writes;
    if writes.len() > 0 {
        if graph.first_write_error(writes, 0) is Some {
            lemma_first_write_error_found(graph, writes, 0);
            let j = choose|j: int|
                0 <= j < writes.len() && graph.write_error(writes, j) == graph.first_write_error(
                    writes,
                    0,
                );
            let update = writes[j];
            if exists|k: int| 0 <= k < j && (#[trigger] writes[k]).entity_id@ == update.entity_id@ {
                let k = choose|k: int|
                    0 <= k < j && (#[trigger] writes[k]).entity_id@ == update.entity_id@;
                assert(writes[k].entity_id@ == update.entity_id@);
            }
        } else if graph.first_read_error(mutation.reads, 0) is Some {
            lemma_first_read_error_found(graph, mutation.reads, 0);
        }
    }
}

} // verus!

verus! {

/// Every state node of a graph has its own identifier: no two nodes, of the
/// same entity or of different ones, share one.
pub proof fn lemma_node_ids_unique(graph: GraphView, e1: u128, i1: int, e2: u128, i2: int)
    requires
        graph.wf(),
        graph.history.contains_key(e1),
        graph.history.contains_key(e2),
        0 <= i1 < graph.history[e1].len(),
        0 <= i2 < graph.history[e2].len(),
        e1 != e2 || i1 != i2,
    ensures
        graph.history[e1][i1].id != graph.history[e2][i2].id,
{
}

/// Each version a mutation commits gets a fresh node identifier: the new
/// node id recorded in every transition differs from the id of every node
/// already in the graph and from the ids of the other transitions, and it is
/// the id of the entity's new current node.
pub proof fn lemma_applied_node_ids_fresh(
    graph: GraphView,
    mutation: MutationView,
    commit: CommitView,
    post: GraphView,
)
    requires
        graph.wf(),
        graph.validate(mutation) is Ok,
        graph.applied(mutation, commit, post),
    ensures
        forall|i: int, entity: u128, j: int|
            0 <= i < commit.transitions.len() && graph.history.contains_key(entity) && 0 <= j
                < graph.history[entity].len() ==> (#[trigger] commit.transitions[i]).new_node_id
                != (#[trigger] graph.history[entity][j]).id,
        forall|i: int, k: int|
            0 <= i < commit.transitions.len() && 0 <= k < commit.transitions.len() && i != k
                ==> (#[trigger] commit.transitions[i]).new_node_id != (
            #[trigger] commit.transitions[k]).new_node_id,
        forall|i: int|
            0 <= i < commit.transitions.len() ==> post.current(
                (#[trigger] commit.transitions[i]).entity_id@,
            ).id == commit.transitions[i].new_node_id,
{
    lemma_applied_current_states(graph, mutation, commit, post);
    assert forall|i: int, entity: u128, j: int|
        0 <= i < commit.transitions.len() && graph.history.contains_key(entity) && 0 <= j
            < graph.history[entity].len() implies (#[trigger] commit.transitions[i]).new_node_id
        != (#[trigger] graph.history[entity][j]).id by {
        assert(graph.has_node_id(graph.history[entity][j].id@));
    }
    assert forall|i: int, k: int|
        0 <= i < commit.transitions.len() && 0 <= k < commit.transitions.len() && i != k
            implies (#[trigger] commit.transitions[i]).new_node_id != (
        #[trigger] commit.transitions[k]).new_node_id by {
        if i > k {
            assert(commit.transitions[k].new_node_id@ != commit.transitions[i].new_node_id@);
        }
    }
    assert forall|i: int| 0 <= i < commit.transitions.len() implies post.current(
        (#[trigger] commit.transitions[i]).entity_id@,
    ).id == commit.transitions[i].new_node_id by {
        assert(commit.transitions[i].entity_id == mutation.writes[i].entity_id);
    }
}

/// Inserting an entity gives its initial node a fresh identifier, different
/// from that of every node already in the graph.
pub proof fn lemma_inserted_node_id_fresh(graph: GraphView, entity: Entity, post: GraphView)
    requires
        graph.wf(),
        graph.inserted(entity, post),
    ensures
        forall|e: u128, j: int|
            graph.history.contains_key(e) && 0 <= j < graph.history[e].len()
                ==> post.history[entity.id@][0].id != (#[trigger] graph.history[e][j]).id,
{
    assert forall|e: u128, j: int|
        graph.history.contains_key(e) && 0 <= j < graph.history[e].len() implies post.history[
        entity.id@][0].id != (#[trigger] graph.history[e][j]).id by {
        assert(graph.has_node_id(graph.history[e][j].id@));
    }
}

} // verus!
