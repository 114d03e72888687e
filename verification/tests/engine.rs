use graphnet_core::account::{account_balance, account_payload};
use graphnet_core::{
    Commit, Entity, EntityId, EntityUpdate, GraphError, GraphState, Mutation, MutationId, NodeId,
    Payload, StateNode, StateRef, StateTransition, Value, Version,
};

fn graph_with(balances: &[i64]) -> (GraphState, Vec<EntityId>) {
    let mut graph = GraphState::new();
    let mut ids = Vec::new();
    for balance in balances {
        let entity = Entity::new("Account", account_payload(*balance));
        ids.push(entity.id);
        graph.insert_entity(entity).unwrap();
    }
    (graph, ids)
}

fn write(id: EntityId, expected: u64, balance: i64) -> EntityUpdate {
    EntityUpdate::new(id, Version::new(expected), account_payload(balance))
}

#[test]
fn version_counts_up() {
    let v = Version::new(41);
    assert_eq!(v.value(), 41);
    assert_eq!(v.next().value(), 42);
    assert_eq!(Version::initial().value(), 1);
    assert_eq!(Version::initial().next(), Version::new(2));
    assert!(v < v.next());
    assert!(Version::new(2) > Version::initial());
    assert!(Version::new(7) <= Version::new(7));
    assert_eq!(Version::new(3).partial_cmp(&Version::new(9)), Some(std::cmp::Ordering::Less));
    assert_eq!(Version::new(3).cmp(&Version::new(9)), std::cmp::Ordering::Less);
    assert_eq!(Version::new(1), Version::initial());
}

#[test]
fn identifiers_are_random_version_4_uuids() {
    let a = EntityId::new();
    let b = EntityId::new();
    assert_ne!(a, b);
    assert_eq!(a.as_uuid().get_version_num(), 4);
    assert_eq!(a.as_uuid().get_variant(), uuid::Variant::RFC4122);
    let m = MutationId::new();
    assert_ne!(m, MutationId::new());
    assert_eq!(m.as_uuid().get_version_num(), 4);
    let n = NodeId::default();
    assert_ne!(n, NodeId::new());
    assert_eq!(n.as_uuid().get_version_num(), 4);
    assert_ne!(EntityId::default(), EntityId::default());
}

#[test]
fn as_uuid_is_stable() {
    let a = EntityId::new();
    assert_eq!(a.as_uuid(), a.as_uuid());
    assert_ne!(a.as_uuid(), EntityId::new().as_uuid());
}

#[test]
fn account_payload_round_trips() {
    let payload = account_payload(-7);
    assert_eq!(payload.len(), 1);
    assert_eq!(payload.get("balance"), Some(&Value::Int(-7)));
    assert_eq!(account_balance(&payload), -7);
}

#[test]
fn state_nodes_link_versions() {
    let entity_id = EntityId::new();
    let first = StateNode::initial(entity_id, account_payload(1));
    assert_eq!(first.entity_id, entity_id);
    assert_eq!(first.version, Version::initial());
    assert_eq!(first.previous_version, None);
    assert_eq!(first.caused_by, None);
    assert_eq!(first.as_ref(), StateRef::new(entity_id, Version::initial()));

    let mutation_id = MutationId::new();
    let second = StateNode::successor(&first, account_payload(2), mutation_id);
    assert_eq!(second.entity_id, entity_id);
    assert_eq!(second.version, Version::new(2));
    assert_eq!(second.previous_version, Some(Version::initial()));
    assert_eq!(second.caused_by, Some(mutation_id));
    assert_eq!(account_balance(&second.payload), 2);
    assert_ne!(second.id, first.id);
}

#[test]
fn constructors_keep_their_arguments() {
    let id = EntityId::new();
    let entity = Entity::with_id(id, "Order", Payload::new());
    assert_eq!(entity.id, id);
    assert_eq!(entity.entity_type, "Order");
    assert!(entity.initial_state.is_empty());

    let generated = Entity::new("Account", account_payload(3));
    assert_eq!(generated.entity_type, "Account");
    assert_ne!(generated.id, id);

    let mutation_id = MutationId::new();
    let reads = vec![StateRef::new(id, Version::initial())];
    let mutation = Mutation::with_id(mutation_id, reads.clone(), vec![write(id, 1, 5)]);
    assert_eq!(mutation.id, mutation_id);
    assert_eq!(mutation.reads, reads);
    assert_eq!(mutation.writes.len(), 1);
    assert_eq!(mutation.writes[0].expected_version, Version::initial());
}

#[test]
fn inserting_twice_is_refused() {
    let (mut graph, ids) = graph_with(&[10]);
    let again = Entity::with_id(ids[0], "Account", account_payload(99));
    assert_eq!(
        graph.insert_entity(again),
        Err(GraphError::DuplicateEntity { entity_id: ids[0] })
    );
    assert_eq!(graph.history(ids[0]).unwrap().len(), 1);
    assert_eq!(account_balance(&graph.current_state(ids[0]).unwrap().payload), 10);
}

#[test]
fn insert_returns_initial_state_ref() {
    let mut graph = GraphState::new();
    let entity = Entity::new("Account", account_payload(4));
    let id = entity.id;
    let state_ref = graph.insert_entity(entity).unwrap();
    assert_eq!(state_ref, StateRef::new(id, Version::initial()));
    let current = graph.current_state(id).unwrap();
    assert_eq!(current.as_ref(), state_ref);
    assert_eq!(current.previous_version, None);
    assert_eq!(current.caused_by, None);
}

#[test]
fn unknown_entities_and_mutations_are_reported() {
    let (graph, _) = graph_with(&[1]);
    let missing = EntityId::new();
    assert_eq!(
        graph.current_state(missing),
        Err(GraphError::EntityNotFound { entity_id: missing })
    );
    assert_eq!(graph.history(missing), Err(GraphError::EntityNotFound { entity_id: missing }));
    let unknown = MutationId::new();
    assert!(graph.mutation(unknown).is_none());
    assert!(graph.commit(unknown).is_none());
    assert!(graph.dependencies_of(unknown).is_none());
}

#[test]
fn write_to_unknown_entity_is_refused() {
    let (mut graph, ids) = graph_with(&[1]);
    let missing = EntityId::new();
    let mutation = Mutation::new(vec![], vec![write(ids[0], 1, 2), write(missing, 1, 3)]);
    assert_eq!(graph.apply(mutation), Err(GraphError::EntityNotFound { entity_id: missing }));
    assert_eq!(graph.history(ids[0]).unwrap().len(), 1);
}

#[test]
fn first_failing_write_decides_the_error() {
    let (mut graph, ids) = graph_with(&[1]);
    let a = ids[0];
    // The first write already conflicts, so the duplicate is never reached.
    let conflict_first = Mutation::new(vec![], vec![write(a, 7, 2), write(a, 1, 3)]);
    assert_eq!(
        graph.apply(conflict_first),
        Err(GraphError::VersionConflict {
            entity_id: a,
            expected: Version::new(7),
            actual: Version::initial(),
        })
    );
    // Writes are checked before reads.
    let bad_both = Mutation::new(
        vec![StateRef::new(a, Version::new(5))],
        vec![write(a, 3, 2)],
    );
    assert!(matches!(graph.apply(bad_both), Err(GraphError::VersionConflict { .. })));
    let bad_read = Mutation::new(vec![StateRef::new(a, Version::new(5))], vec![write(a, 1, 2)]);
    assert_eq!(
        graph.apply(bad_read),
        Err(GraphError::StateReferenceNotFound { state_ref: StateRef::new(a, Version::new(5)) })
    );
    let unknown_read = StateRef::new(EntityId::new(), Version::initial());
    let bad_entity_read = Mutation::new(vec![unknown_read], vec![write(a, 1, 2)]);
    assert_eq!(
        graph.apply(bad_entity_read),
        Err(GraphError::StateReferenceNotFound { state_ref: unknown_read })
    );
    assert_eq!(graph.history(a).unwrap().len(), 1);
}

#[test]
fn commit_records_the_mutation() {
    let (mut graph, ids) = graph_with(&[100, 50]);
    let (a, b) = (ids[0], ids[1]);
    let reads = vec![StateRef::new(a, Version::initial())];
    let mutation = Mutation::new(reads.clone(), vec![write(b, 1, 70), write(a, 1, 80)]);
    let copy = mutation.clone();
    let commit: Commit = graph.apply(mutation).unwrap();

    assert_eq!(commit.mutation_id, copy.id);
    assert_eq!(commit.dependencies, reads);
    let expected_entities = [b, a];
    for (transition, entity) in commit.transitions.iter().zip(expected_entities) {
        let transition: &StateTransition = transition;
        assert_eq!(transition.entity_id, entity);
        assert_eq!(transition.from_version, Version::initial());
        assert_eq!(transition.to_version, Version::new(2));
        let current = graph.current_state(entity).unwrap();
        assert_eq!(current.id, transition.new_node_id);
        assert_eq!(current.caused_by, Some(copy.id));
        assert_eq!(current.previous_version, Some(Version::initial()));
    }
    assert_eq!(graph.commit(copy.id), Some(&commit));
    assert_eq!(graph.mutation(copy.id), Some(&copy));
    assert_eq!(graph.dependencies_of(copy.id), Some(reads.as_slice()));
}

#[test]
fn history_only_grows() {
    let (mut graph, ids) = graph_with(&[100]);
    let a = ids[0];
    let before: Vec<StateNode> = graph.history(a).unwrap().to_vec();
    graph.apply(Mutation::new(vec![], vec![write(a, 1, 90)])).unwrap();
    graph.apply(Mutation::new(vec![], vec![write(a, 2, 80)])).unwrap();
    let after = graph.history(a).unwrap();
    assert_eq!(after.len(), 3);
    assert_eq!(after[0], before[0]);
    let versions: Vec<u64> = after.iter().map(|node| node.version.value()).collect();
    assert_eq!(versions, vec![1, 2, 3]);
    let balances: Vec<i64> = after.iter().map(|node| account_balance(&node.payload)).collect();
    assert_eq!(balances, vec![100, 90, 80]);
    assert_eq!(after[2].previous_version, Some(Version::new(2)));
}

#[test]
fn old_versions_stay_readable() {
    let (mut graph, ids) = graph_with(&[100]);
    let a = ids[0];
    graph.apply(Mutation::new(vec![], vec![write(a, 1, 90)])).unwrap();
    // Version 1 is no longer current but still in history, so it may be read.
    let reads_old = Mutation::new(
        vec![StateRef::new(a, Version::initial()), StateRef::new(a, Version::new(2))],
        vec![write(a, 2, 80)],
    );
    assert!(graph.apply(reads_old).is_ok());
    let reads_future = Mutation::new(vec![StateRef::new(a, Version::new(4))], vec![write(a, 3, 70)]);
    assert!(matches!(
        graph.apply(reads_future),
        Err(GraphError::StateReferenceNotFound { .. })
    ));
}

#[test]
fn read_your_write() {
    let (mut graph, ids) = graph_with(&[5, 6]);
    let (a, b) = (ids[0], ids[1]);
    graph.apply(Mutation::new(vec![], vec![write(a, 1, 11)])).unwrap();
    assert_eq!(account_balance(&graph.current_state(a).unwrap().payload), 11);
    assert_eq!(graph.current_state(a).unwrap().version, Version::new(2));
    // The entity that was not written reads as before.
    assert_eq!(account_balance(&graph.current_state(b).unwrap().payload), 6);
    assert_eq!(graph.current_state(b).unwrap().version, Version::initial());
}

#[test]
fn failed_mutation_is_not_recorded() {
    let (mut graph, ids) = graph_with(&[5]);
    let mutation = Mutation::new(vec![], vec![write(ids[0], 9, 1)]);
    let id = mutation.id;
    assert!(graph.apply(mutation).is_err());
    assert!(graph.mutation(id).is_none());
    assert!(graph.commit(id).is_none());
    assert!(graph.dependencies_of(id).is_none());
}

#[test]
fn stale_write_after_other_entity_change_still_applies() {
    let (mut graph, ids) = graph_with(&[1, 2]);
    let (a, b) = (ids[0], ids[1]);
    let prepared = Mutation::new(vec![StateRef::new(b, Version::initial())], vec![write(b, 1, 20)]);
    graph.apply(Mutation::new(vec![], vec![write(a, 1, 10)])).unwrap();
    assert!(graph.apply(prepared).is_ok());
    assert_eq!(account_balance(&graph.current_state(b).unwrap().payload), 20);
}
