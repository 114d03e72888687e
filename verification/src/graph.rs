//! In-memory GraphNet state engine responsible for atomic mutation execution.
use std::collections::{HashMap, HashSet};
use vstd::prelude::*;

use crate::commit::{Commit, CommitView, StateTransition};
use crate::entity::Entity;
use crate::error::GraphError;
use crate::id::{is_v4_bits, EntityId, MutationId, NodeId};
use crate::mutation::{EntityUpdateView, Mutation, MutationView};
use crate::state::{StateNode, StateNodeView, StateRef};

verus! {

broadcast use vstd::std_specs::hash::group_hash_axioms;

/// The nodes of a history, each taken by its view.
pub open spec fn nodes_view(nodes: Seq<StateNode>) -> Seq<StateNodeView> {
    nodes.map_values(|node: StateNode| node@)
}

/// The abstract state of a [`GraphState`]: the version history of every
/// entity (its last node is the entity's current state), the committed
/// mutations and commit records, each filed under the 128 bits of its
/// identifier, and the identifiers of all state nodes in the histories.
pub struct GraphView {
    pub history: Map<u128, Seq<StateNodeView>>,
    pub mutations: Map<u128, MutationView>,
    pub commits: Map<u128, CommitView>,
    pub node_ids: Set<u128>,
}

/// The node that a write creates, as the commit's transition for it records:
/// the transition's new identifier and version, the write's payload, a link
/// to the version it replaces, and the mutation as its cause.
pub open spec fn successor_node(
    mutation: MutationView,
    update: EntityUpdateView,
    transition: StateTransition,
) -> StateNodeView {
    StateNodeView {
        id: transition.new_node_id,
        entity_id: update.entity_id,
        version: transition.to_version,
        payload: update.new_payload,
        previous_version: Some(transition.from_version),
        caused_by: Some(mutation.id),
    }
}

/// Well-formedness of one entity's history: it is not empty, every node
/// belongs to the entity, versions count up from 1 without gaps, each node
/// after the first links to its predecessor's version and names a committed
/// mutation as its cause, and the first node has neither.
pub open spec fn history_wf(entity: u128, nodes: Seq<StateNodeView>, mutations: Map<
    u128,
    MutationView,
>) -> bool {
    &&& nodes.len() > 0
    &&& forall|i: int|
        0 <= i < nodes.len() ==> {
            let node = #[trigger] nodes[i];
            &&& node.entity_id@ == entity
            &&& node.version@ == i + 1
            &&& i == 0 ==> node.previous_version is None && node.caused_by is None
            &&& i > 0 ==> {
                &&& node.previous_version matches Some(previous) && previous@ == i
                &&& node.caused_by matches Some(cause) && mutations.contains_key(cause@)
            }
        }
}

impl GraphView {
    /// The graph with no entity and no mutation.
    pub open spec fn empty() -> GraphView {
        GraphView {
            history: Map::empty(),
            mutations: Map::empty(),
            commits: Map::empty(),
            node_ids: Set::empty(),
        }
    }

    /// Whether the entity has been inserted.
    pub open spec fn contains_entity(self, entity: u128) -> bool {
        self.history.contains_key(entity)
    }

    /// The current (latest) state node of an entity.
    pub open spec fn current(self, entity: u128) -> StateNodeView {
        self.history[entity].last()
    }

    /// Whether some node in some history has the identifier.
    pub open spec fn has_node_id(self, id: u128) -> bool {
        exists|entity: u128, i: int|
            self.history.contains_key(entity) && 0 <= i < self.history[entity].len() && (
            #[trigger] self.history[entity][i]).id@ == id
    }

    /// No two nodes of the graph, in the same history or in different ones,
    /// share an identifier.
    pub open spec fn node_ids_distinct(self) -> bool {
        forall|e1: u128, i1: int, e2: u128, i2: int|
            #![trigger self.history[e1][i1], self.history[e2][i2]]
            self.history.contains_key(e1) && self.history.contains_key(e2) && 0 <= i1
                < self.history[e1].len() && 0 <= i2 < self.history[e2].len() && (e1 != e2 || i1
                != i2) ==> self.history[e1][i1].id@ != self.history[e2][i2].id@
    }

    /// The invariant that every operation of the engine keeps.
    pub open spec fn wf(self) -> bool {
        &&& self.node_ids.finite()
        &&& forall|id: u128| #[trigger] self.node_ids.contains(id) <==> self.has_node_id(id)
        &&& self.node_ids_distinct()
        &&& forall|entity: u128| #[trigger]
            self.history.contains_key(entity) ==> history_wf(
                entity,
                self.history[entity],
                self.mutations,
            )
        &&& self.commits.dom() == self.mutations.dom()
        &&& forall|id: u128| #[trigger]
            self.mutations.contains_key(id) ==> {
                &&& self.mutations[id].id@ == id
                &&& self.commits[id].mutation_id@ == id
                &&& self.commits[id].dependencies == self.mutations[id].reads
            }
    }

    /// Whether some node in the history of the referenced entity has the
    /// referenced version.
    pub open spec fn state_ref_exists(self, state_ref: StateRef) -> bool {
        &&& self.history.contains_key(state_ref.entity_id@)
        &&& exists|i: int|
            0 <= i < self.history[state_ref.entity_id@].len() && (#[trigger] self.history[
                state_ref.entity_id@][i]).version@ == state_ref.version@
    }

    /// The error raised by the write at index `i`, checked after the writes
    /// before it: a second write to an entity, a write to an unknown entity,
    /// or a write whose expected version is not the entity's current one.
    pub open spec fn write_error(self, writes: Seq<EntityUpdateView>, i: int) -> Option<
        GraphError,
    > {
        let update = writes[i];
        if exists|j: int| 0 <= j < i && (#[trigger] writes[j]).entity_id@ == update.entity_id@ {
            Some(GraphError::DuplicateWrite { entity_id: update.entity_id })
        } else if !self.contains_entity(update.entity_id@) {
            Some(GraphError::EntityNotFound { entity_id: update.entity_id })
        } else if self.current(update.entity_id@).version@ != update.expected_version@ {
            Some(
                GraphError::VersionConflict {
                    entity_id: update.entity_id,
                    expected: update.expected_version,
                    actual: self.current(update.entity_id@).version,
                },
            )
        } else {
            None
        }
    }

    /// The first error raised by the writes from index `i` on.
    pub open spec fn first_write_error(self, writes: Seq<EntityUpdateView>, i: int) -> Option<
        GraphError,
    >
        decreases writes.len() - i,
    {
        if 0 <= i < writes.len() {
            match self.write_error(writes, i) {
                Some(error) => Some(error),
                None => self.first_write_error(writes, i + 1),
            }
        } else {
            None
        }
    }

    /// The first read from index `i` on that names no version in history.
    pub open spec fn first_read_error(self, reads: Seq<StateRef>, i: int) -> Option<GraphError>
        decreases reads.len() - i,
    {
        if 0 <= i < reads.len() {
            if !self.state_ref_exists(reads[i]) {
                Some(GraphError::StateReferenceNotFound { state_ref: reads[i] })
            } else {
                self.first_read_error(reads, i + 1)
            }
        } else {
            None
        }
    }

    /// The outcome of validating a mutation against this graph: it must
    /// write something; then each write is checked in order, then each read.
    pub open spec fn validate(self, mutation: MutationView) -> Result<(), GraphError> {
        if mutation.writes.len() == 0 {
            Err(GraphError::EmptyMutation)
        } else {
            match self.first_write_error(mutation.writes, 0) {
                Some(error) => Err(error),
                None => match self.first_read_error(mutation.reads, 0) {
                    Some(error) => Err(error),
                    None => Ok(()),
                },
            }
        }
    }

    /// Whether some write of the mutation targets the entity.
    pub open spec fn writes_entity(mutation: MutationView, entity: u128) -> bool {
        exists|i: int|
            0 <= i < mutation.writes.len() && (#[trigger] mutation.writes[i]).entity_id@ == entity
    }

    /// `commit` records the mutation taking effect on this graph: it names the
    /// mutation and its reads, and holds one transition per write, in order,
    /// from the entity's current version to the next one, into a new node
    /// with an identifier that no node of the graph has.
    pub open spec fn commit_records(self, mutation: MutationView, commit: CommitView) -> bool {
        &&& commit.mutation_id == mutation.id
        &&& commit.dependencies == mutation.reads
        &&& commit.transitions.len() == mutation.writes.len()
        &&& forall|i: int|
            0 <= i < mutation.writes.len() ==> {
                let transition = #[trigger] commit.transitions[i];
                let update = mutation.writes[i];
                &&& transition.entity_id == update.entity_id
                &&& transition.from_version == self.current(update.entity_id@).version
                &&& transition.from_version == update.expected_version
                &&& transition.to_version@ == transition.from_version@ + 1
                &&& is_v4_bits(transition.new_node_id@)
                &&& !self.node_ids.contains(transition.new_node_id@)
            }
        &&& forall|i: int, j: int|
            0 <= i < j < mutation.writes.len() ==> (#[trigger] commit.transitions[i]).new_node_id@
                != (#[trigger] commit.transitions[j]).new_node_id@
    }

    /// The identifiers of the new nodes that a commit records.
    pub open spec fn new_node_ids(commit: CommitView) -> Set<u128> {
        Set::new(
            |id: u128|
                exists|i: int|
                    0 <= i < commit.transitions.len() && (#[trigger] commit.transitions[i]).new_node_id@
                        == id,
        )
    }

    /// `post` is this graph after the mutation took effect as `commit`
    /// records: each written entity gains the successor node of its write,
    /// every other entity is unchanged, and the mutation and its commit are
    /// filed under the mutation's identifier.
    pub open spec fn applied(self, mutation: MutationView, commit: CommitView, post: GraphView) -> bool {
        &&& self.commit_records(mutation, commit)
        &&& post.history.dom() == self.history.dom()
        &&& forall|i: int|
            0 <= i < mutation.writes.len() ==> {
                let update = #[trigger] mutation.writes[i];
                post.history[update.entity_id@] == self.history[update.entity_id@].push(
                    successor_node(mutation, update, commit.transitions[i]),
                )
            }
        &&& forall|entity: u128|
            #![trigger post.history[entity]]
            self.history.contains_key(entity) && !Self::writes_entity(mutation, entity)
                ==> post.history[entity] == self.history[entity]
        &&& post.mutations == self.mutations.insert(mutation.id@, mutation)
        &&& post.commits == self.commits.insert(mutation.id@, commit)
        &&& post.node_ids == self.node_ids.union(Self::new_node_ids(commit))
    }

    /// `post` keeps everything this graph recorded: every entity, with its
    /// history as a prefix of the new one, and every committed mutation.
    pub open spec fn extended_by(self, post: GraphView) -> bool {
        &&& forall|entity: u128| #[trigger]
            self.history.contains_key(entity) ==> {
                &&& post.history.contains_key(entity)
                &&& self.history[entity].len() <= post.history[entity].len()
                &&& forall|i: int|
                    0 <= i < self.history[entity].len() ==> #[trigger] post.history[entity][i]
                        == self.history[entity][i]
            }
        &&& forall|id: u128| #[trigger]
            self.mutations.contains_key(id) ==> post.mutations.contains_key(id)
    }

    /// `post` is this graph with the entity inserted: its history is one
    /// initial node, with an identifier that no node of the graph has, version 1 and the entity's
    /// initial payload; nothing else changes.
    pub open spec fn inserted(self, entity: Entity, post: GraphView) -> bool {
        &&& post.history.dom() == self.history.dom().insert(entity.id@)
        &&& forall|e: u128| #[trigger]
            self.history.contains_key(e) ==> post.history[e] == self.history[e]
        &&& post.history[entity.id@].len() == 1
        &&& {
            let node = post.history[entity.id@][0];
            &&& is_v4_bits(node.id@)
            &&& !self.node_ids.contains(node.id@)
            &&& post.node_ids == self.node_ids.insert(node.id@)
            &&& node.entity_id == entity.id
            &&& node.version@ == 1
            &&& node.payload == entity.initial_state@
            &&& node.previous_version is None
            &&& node.caused_by is None
        }
        &&& post.mutations == self.mutations
        &&& post.commits == self.commits
    }
}

/// In-memory single-node GraphNet execution engine.
///
/// The engine keeps the complete version history of every entity (the last
/// version being its current materialized state), the committed mutations and
/// their commit records, from which the explicit dependency edges are read.
/// Mutations are validated fully before any state is changed, so a mutation
/// takes effect entirely or not at all. Every state node gets an identifier
/// that no other node of the graph has: its random one, or, should that
/// already be taken, the first free one of a fixed sequence.
#[derive(Debug)]
pub struct GraphState {
    history: HashMap<u128, Vec<StateNode>>,
    mutations: HashMap<u128, Mutation>,
    commits: HashMap<u128, Commit>,
    node_ids: HashSet<u128>,
}

impl View for GraphState {
    type V = GraphView;

    closed spec fn view(&self) -> GraphView {
        GraphView {
            history: self.history@.map_values(|nodes: Vec<StateNode>| nodes_view(nodes@)),
            mutations: self.mutations@.map_values(|mutation: Mutation| mutation@),
            commits: self.commits@.map_values(|commit: Commit| commit@),
            node_ids: self.node_ids@,
        }
    }
}

impl Default for GraphState {
    /// Creates an empty in-memory graph.
    fn default() -> (graph: Self)
        ensures
            graph@ == GraphView::empty(),
            graph@.wf(),
    {
        Self::new()
    }
}

impl GraphState {
    /// Creates an empty in-memory graph.
    pub fn new() -> (graph: Self)
        ensures
            graph@ == GraphView::empty(),
            graph@.wf(),
    {
        let graph = GraphState {
            history: HashMap::new(),
            mutations: HashMap::new(),
            commits: HashMap::new(),
            node_ids: HashSet::new(),
        };
        assert(graph@.history =~= Map::empty());
        assert(graph@.mutations =~= Map::empty());
        assert(graph@.commits =~= Map::empty());
        graph
    }

    /// Inserts a new logical entity and creates its initial immutable state node.
    ///
    /// # Errors
    ///
    /// Returns [`GraphError::DuplicateEntity`] when an entity with the same
    /// identifier has already been inserted.
    pub fn insert_entity(&mut self, entity: Entity) -> (result: Result<StateRef, GraphError>)
        requires
            old(self)@.wf(),
        ensures
            final(self)@.wf(),
            match result {
                Ok(state_ref) => {
                    &&& !old(self)@.contains_entity(entity.id@)
                    &&& old(self)@.inserted(entity, final(self)@)
                    &&& state_ref == final(self)@.current(entity.id@).state_ref()
                    &&& state_ref.entity_id == entity.id
                    &&& state_ref.version@ == 1
                },
                Err(error) => {
                    &&& old(self)@.contains_entity(entity.id@)
                    &&& error == GraphError::DuplicateEntity { entity_id: entity.id }
                    &&& final(self)@ == old(self)@
                },
            },
    {
        let key = entity.id.bits();
        if self.history.contains_key(&key) {
            return Err(GraphError::DuplicateEntity { entity_id: entity.id });
        }
        let ghost entity_view = entity;
        let mut node = StateNode::initial(entity.id, entity.initial_state);
        let none_drawn: HashSet<u128> = HashSet::new();
        node.id = fresh_node_id(node.id, &self.node_ids, &none_drawn);
        let state_ref = node.as_ref();
        self.node_ids.insert(node.id.bits());
        let mut nodes: Vec<StateNode> = Vec::new();
        nodes.push(node);
        self.history.insert(key, nodes);
        proof {
            let post = self@;
            let pre = old(self)@;
            assert(post.history.dom() =~= pre.history.dom().insert(key));
            assert(post.history[key] =~= seq![node@]);
            assert forall|e: u128| #[trigger] post.history.contains_key(e) implies history_wf(
                e,
                post.history[e],
                post.mutations,
            ) by {
                if e != key {
                    assert(pre.history.contains_key(e));
                }
            }
            assert(pre.inserted(entity_view, post));
            lemma_inserted_preserves_wf(pre, entity_view, post);
        }
        Ok(state_ref)
    }

    /// Returns the current materialized state of an entity.
    ///
    /// # Errors
    ///
    /// Returns [`GraphError::EntityNotFound`] when the entity is unknown.
    pub fn current_state(&self, entity_id: EntityId) -> (result: Result<&StateNode, GraphError>)
        requires
            self@.wf(),
        ensures
            match result {
                Ok(node) => self@.contains_entity(entity_id@) && node@ == self@.current(
                    entity_id@,
                ),
                Err(error) => !self@.contains_entity(entity_id@) && error
                    == GraphError::EntityNotFound { entity_id },
            },
    {
        match self.history.get(&entity_id.bits()) {
            Some(nodes) => {
                assert(self@.history.contains_key(entity_id@));
                assert(history_wf(entity_id@, self@.history[entity_id@], self@.mutations));
                Ok(&nodes[nodes.len() - 1])
            },
            None => Err(GraphError::EntityNotFound { entity_id }),
        }
    }

    /// Returns the complete ordered version history of an entity.
    ///
    /// # Errors
    ///
    /// Returns [`GraphError::EntityNotFound`] when the entity is unknown.
    pub fn history(&self, entity_id: EntityId) -> (result: Result<&[StateNode], GraphError>)
        ensures
            match result {
                Ok(nodes) => self@.contains_entity(entity_id@) && nodes_view(nodes@)
                    == self@.history[entity_id@],
                Err(error) => !self@.contains_entity(entity_id@) && error
                    == GraphError::EntityNotFound { entity_id },
            },
    {
        match self.history.get(&entity_id.bits()) {
            Some(nodes) => Ok(nodes.as_slice()),
            None => Err(GraphError::EntityNotFound { entity_id }),
        }
    }

    /// Returns a committed mutation by identifier.
    pub fn mutation(&self, mutation_id: MutationId) -> (result: Option<&Mutation>)
        ensures
            match result {
                Some(mutation) => self@.mutations.contains_key(mutation_id@) && mutation@
                    == self@.mutations[mutation_id@],
                None => !self@.mutations.contains_key(mutation_id@),
            },
    {
        self.mutations.get(&mutation_id.bits())
    }

    /// Returns a commit record by mutation identifier.
    pub fn commit(&self, mutation_id: MutationId) -> (result: Option<&Commit>)
        ensures
            match result {
                Some(commit) => self@.commits.contains_key(mutation_id@) && commit@
                    == self@.commits[mutation_id@],
                None => !self@.commits.contains_key(mutation_id@),
            },
    {
        self.commits.get(&mutation_id.bits())
    }

    /// Returns the explicit state dependencies recorded for a committed mutation.
    pub fn dependencies_of(&self, mutation_id: MutationId) -> (result: Option<&[StateRef]>)
        requires
            self@.wf(),
        ensures
            match result {
                Some(dependencies) => self@.mutations.contains_key(mutation_id@)
                    && dependencies@ == self@.mutations[mutation_id@].reads,
                None => !self@.mutations.contains_key(mutation_id@),
            },
    {
        match self.commits.get(&mutation_id.bits()) {
            Some(commit) => Some(commit.dependencies.as_slice()),
            None => None,
        }
    }
    /// Applies an atomic mutation to the graph.
    ///
    /// The method executes in three phases:
    ///
    /// 1. Validate every write's entity and expected version and every read dependency.
    /// 2. Build all successor state nodes without modifying shared state.
    /// 3. Publish every new state, the mutation and its commit together.
    ///
    /// Because all validation happens before publication, a failing mutation does
    /// not partially modify any entity.
    ///
    /// # Errors
    ///
    /// Returns a [`GraphError`] when the mutation is empty, contains duplicate
    /// writes, refers to an unknown entity or state, or fails an optimistic
    /// version check.
    pub fn apply(&mut self, mutation: Mutation) -> (result: Result<Commit, GraphError>)
        requires
            old(self)@.wf(),
            old(self)@.validate(mutation@) is Ok ==> forall|i: int|
                0 <= i < mutation@.writes.len() ==> (#[trigger] mutation@.writes[i]).expected_version@
                    < u64::MAX,
        ensures
            final(self)@.wf(),
            match result {
                Ok(commit) => {
                    &&& old(self)@.validate(mutation@) is Ok
                    &&& old(self)@.applied(mutation@, commit@, final(self)@)
                },
                Err(error) => {
                    &&& old(self)@.validate(mutation@) == Err::<(), GraphError>(error)
                    &&& final(self)@ == old(self)@
                },
            },
    {
        match self.validate_mutation(&mutation) {
            Ok(()) => {},
            Err(error) => {
                return Err(error);
            },
        }
        let ghost pre = self@;
        let ghost m = mutation@;
        proof {
            lemma_validate_ok(pre, m);
        }
        let n = mutation.writes.len();
        let mut new_states: Vec<StateNode> = Vec::with_capacity(n);
        let mut transitions: Vec<StateTransition> = Vec::with_capacity(n);
        let mut drawn: HashSet<u128> = HashSet::new();
        let mut i: usize = 0;
        while i < n
            invariant
                self@ == pre,
                pre.wf(),
                m == mutation@,
                n == m.writes.len(),
                0 <= i <= n,
                forall|j: int|
                    0 <= j < n ==> {
                        let update = #[trigger] m.writes[j];
                        &&& pre.contains_entity(update.entity_id@)
                        &&& pre.current(update.entity_id@).version@ == update.expected_version@
                        &&& update.expected_version@ < u64::MAX
                    },
                new_states.len() == i,
                transitions.len() == i,
                forall|j: int|
                    0 <= j < i ==> {
                        let transition = #[trigger] transitions@[j];
                        let update = m.writes[j];
                        &&& transition.entity_id == update.entity_id
                        &&& transition.from_version == pre.current(update.entity_id@).version
                        &&& transition.from_version == update.expected_version
                        &&& transition.to_version@ == transition.from_version@ + 1
                        &&& is_v4_bits(transition.new_node_id@)
                        &&& !pre.node_ids.contains(transition.new_node_id@)
                        &&& new_states@[j]@ == successor_node(m, update, transition)
                    },
                forall|j: int, k: int|
                    0 <= j < k < i ==> (#[trigger] transitions@[j]).new_node_id@ != (
                    #[trigger] transitions@[k]).new_node_id@,
                drawn@.finite(),
                drawn@ == Set::new(
                    |id: u128|
                        exists|j: int|
                            0 <= j < i && (#[trigger] transitions@[j]).new_node_id@ == id,
                ),
            decreases n - i,
        {
            let update = &mutation.writes[i];
            assert(m.writes[i as int] == update@);
            let current = self.current_state(update.entity_id).unwrap();
            proof {
                current.entity_id.lemma_view_determines(update.entity_id);
                current.version.lemma_view_determines(update.expected_version);
            }
            let mut successor = StateNode::successor(
                current,
                update.new_payload.clone(),
                mutation.id,
            );
            let ghost drawn_before = drawn@;
            let ghost transitions_before = transitions@;
            successor.id = fresh_node_id(successor.id, &self.node_ids, &drawn);
            drawn.insert(successor.id.bits());
            let transition = StateTransition {
                entity_id: update.entity_id,
                from_version: current.version,
                to_version: successor.version,
                new_node_id: successor.id,
            };
            transitions.push(transition);
            new_states.push(successor);
            i += 1;
            proof {
                assert forall|j: int| 0 <= j < i - 1 implies #[trigger] transitions@[j]
                    == transitions_before[j] by {}
                assert forall|j: int| 0 <= j < i - 1 implies drawn_before.contains(
                    (#[trigger] transitions@[j]).new_node_id@,
                ) by {
                    assert(transitions_before[j] == transitions@[j]);
                }
                assert forall|j: int, k: int|
                    0 <= j < k < i implies (#[trigger] transitions@[j]).new_node_id@ != (
                    #[trigger] transitions@[k]).new_node_id@ by {
                    if k == i - 1 {
                        assert(drawn_before.contains(transitions@[j].new_node_id@));
                    } else {
                        assert(transitions@[j] == transitions_before[j]);
                        assert(transitions@[k] == transitions_before[k]);
                    }
                }
                assert(drawn@ =~= Set::new(
                    |id: u128|
                        exists|j: int|
                            0 <= j < i && (#[trigger] transitions@[j]).new_node_id@ == id,
                )) by {
                    assert(transitions@[i - 1].new_node_id@ == transition.new_node_id@);
                    assert forall|id: u128| #[trigger] drawn_before.contains(id) implies exists|
                        j: int,
                    | 0 <= j < i && (#[trigger] transitions@[j]).new_node_id@ == id by {
                        let j = choose|j: int|
                            0 <= j < i - 1 && (#[trigger] transitions_before[j]).new_node_id@
                                == id;
                        assert(transitions@[j] == transitions_before[j]);
                    }
                    assert forall|id: u128|
                        (exists|j: int|
                            0 <= j < i && (#[trigger] transitions@[j]).new_node_id@ == id) implies
                        #[trigger] drawn@.contains(id) by {
                        let j = choose|j: int|
                            0 <= j < i && (#[trigger] transitions@[j]).new_node_id@ == id;
                        if j < i - 1 {
                            assert(drawn_before.contains(transitions@[j].new_node_id@));
                        }
                    }
                }
            }
        }
        let commit = Commit {
            mutation_id: mutation.id,
            dependencies: mutation.reads.clone(),
            transitions,
        };
        assert(commit.dependencies@ =~= m.reads);
        let ghost built = new_states@;
        assert forall|j: int| 0 <= j < n implies built[j].entity_id == (
        #[trigger] m.writes[j]).entity_id && built[j].id == commit@.transitions[j].new_node_id by {
            assert(built[j]@ == successor_node(m, m.writes[j], transitions@[j]));
        }
        while new_states.len() > 0
            invariant
                pre.wf(),
                m == mutation@,
                n == m.writes.len(),
                built.len() == n,
                new_states.len() <= n,
                new_states@ == built.subrange(0, new_states.len() as int),
                forall|j: int|
                    0 <= j < n ==> {
                        let update = #[trigger] m.writes[j];
                        &&& pre.contains_entity(update.entity_id@)
                        &&& built[j].entity_id == update.entity_id
                    },
                forall|j: int, k: int|
                    0 <= j < n && 0 <= k < n && j != k ==> (#[trigger] m.writes[j]).entity_id@
                        != (#[trigger] m.writes[k]).entity_id@,
                self@.history.dom() == pre.history.dom(),
                forall|j: int|
                    new_states.len() <= j < n ==> {
                        let entity = (#[trigger] m.writes[j]).entity_id@;
                        self@.history[entity] == pre.history[entity].push(built[j]@)
                    },
                forall|j: int|
                    0 <= j < new_states.len() ==> {
                        let entity = (#[trigger] m.writes[j]).entity_id@;
                        self@.history[entity] == pre.history[entity]
                    },
                forall|entity: u128|
                    #![trigger self@.history[entity]]
                    pre.history.contains_key(entity) && !GraphView::writes_entity(m, entity)
                        ==> self@.history[entity] == pre.history[entity],
                self@.mutations == pre.mutations,
                self@.commits == pre.commits,
                forall|j: int|
                    0 <= j < n ==> (#[trigger] built[j]).id == commit@.transitions[j].new_node_id,
                self@.node_ids == pre.node_ids.union(
                    Set::new(
                        |id: u128|
                            exists|j: int|
                                new_states.len() <= j < n && (#[trigger] built[j]).id@ == id,
                    ),
                ),
            decreases new_states.len(),
        {
            let ghost k = new_states.len() - 1;
            let state = new_states.pop().unwrap();
            assert(state == built[k]);
            let key = state.entity_id.bits();
            let node_bits = state.id.bits();
            assert(key == m.writes[k].entity_id@);
            let ghost before = self@;
            assert(self.history@.contains_key(key));
            let mut nodes = self.history.remove(&key).unwrap();
            assert(nodes_view(nodes@) == before.history[key]);
            nodes.push(state);
            assert(nodes_view(nodes@) =~= before.history[key].push(state@));
            self.history.insert(key, nodes);
            let ghost ids_before = self@.node_ids;
            self.node_ids.insert(node_bits);
            proof {
                assert(self@.node_ids =~= pre.node_ids.union(
                    Set::new(
                        |id: u128|
                            exists|j: int|
                                new_states.len() <= j < n && (#[trigger] built[j]).id@ == id,
                    ),
                )) by {
                    assert(built[k].id@ == node_bits);
                    assert forall|id: u128| #[trigger] self@.node_ids.contains(id) implies
                        pre.node_ids.contains(id) || exists|j: int|
                            new_states.len() <= j < n && (#[trigger] built[j]).id@ == id by {
                        if id != node_bits && !pre.node_ids.contains(id) {
                            let j = choose|j: int|
                                new_states.len() + 1 <= j < n && (#[trigger] built[j]).id@ == id;
                            assert(built[j].id@ == id);
                        }
                    }
                    assert forall|id: u128|
                        (exists|j: int| new_states.len() <= j < n && (#[trigger] built[j]).id@ == id)
                            implies #[trigger] self@.node_ids.contains(id) by {
                        let j = choose|j: int|
                            new_states.len() <= j < n && (#[trigger] built[j]).id@ == id;
                        if j != k {
                            assert(ids_before.contains(id));
                        }
                    }
                }
                assert(self@.history =~= before.history.insert(key, pre.history[key].push(built[k]@)));
                assert forall|entity: u128|
                    #![trigger self@.history[entity]]
                    pre.history.contains_key(entity) && !GraphView::writes_entity(m, entity)
                        implies self@.history[entity] == pre.history[entity] by {
                    if entity == key {
                        assert(m.writes[k].entity_id@ == entity);
                    }
                }
            }
        }
        let stored = Commit {
            mutation_id: commit.mutation_id,
            dependencies: commit.dependencies.clone(),
            transitions: commit.transitions.clone(),
        };
        assert(stored.dependencies@ =~= commit.dependencies@);
        assert(stored.transitions@ =~= commit.transitions@);
        let id = mutation.id.bits();
        self.commits.insert(id, stored);
        self.mutations.insert(id, mutation);
        proof {
            let post = self@;
            assert(post.mutations =~= pre.mutations.insert(m.id@, m));
            assert(post.commits =~= pre.commits.insert(m.id@, commit@));
            assert forall|j: int| 0 <= j < n implies {
                let update = #[trigger] m.writes[j];
                post.history[update.entity_id@] == pre.history[update.entity_id@].push(
                    successor_node(m, update, commit@.transitions[j]),
                )
            } by {
                assert(built[j]@ == successor_node(m, m.writes[j], commit@.transitions[j]));
            }
            assert(post.node_ids =~= pre.node_ids.union(GraphView::new_node_ids(commit@))) by {
                assert forall|id: u128| #[trigger]
                    post.node_ids.contains(id) <==> pre.node_ids.union(
                        GraphView::new_node_ids(commit@),
                    ).contains(id) by {
                    if exists|j: int| 0 <= j < n && (#[trigger] built[j]).id@ == id {
                        let j = choose|j: int| 0 <= j < n && (#[trigger] built[j]).id@ == id;
                        assert(commit@.transitions[j].new_node_id@ == id);
                    }
                    if exists|j: int|
                        0 <= j < commit@.transitions.len() && (
                        #[trigger] commit@.transitions[j]).new_node_id@ == id {
                        let j = choose|j: int|
                            0 <= j < commit@.transitions.len() && (
                            #[trigger] commit@.transitions[j]).new_node_id@ == id;
                        assert(built[j].id@ == id);
                    }
                }
            }
            assert(pre.applied(m, commit@, post));
            lemma_applied_preserves_wf(pre, m, commit@, post);
        }
        Ok(commit)
    }

    /// Validates a mutation without changing graph state.
    ///
    /// This checks structural constraints, dependency existence and optimistic
    /// write versions, and reports the first invalid condition found.
    fn validate_mutation(&self, mutation: &Mutation) -> (result: Result<(), GraphError>)
        requires
            self@.wf(),
        ensures
            result == self@.validate(mutation@),
    {
        let n = mutation.writes.len();
        if n == 0 {
            return Err(GraphError::EmptyMutation);
        }
        let ghost graph = self@;
        let ghost writes = mutation@.writes;
        let mut written_entities: HashSet<u128> = HashSet::with_capacity(n);
        let mut i: usize = 0;
        while i < n
            invariant
                graph == self@,
                graph.wf(),
                writes == mutation@.writes,
                n == mutation.writes.len(),
                n == writes.len(),
                0 <= i <= n,
                written_entities@ == Set::new(
                    |k: u128| exists|j: int| 0 <= j < i && (#[trigger] writes[j]).entity_id@ == k,
                ),
                graph.first_write_error(writes, 0) == graph.first_write_error(writes, i as int),
            decreases n - i,
        {
            let update = &mutation.writes[i];
            assert(writes[i as int] == update@);
            let key = update.entity_id.bits();
            if !written_entities.insert(key) {
                let ghost j = choose|j: int| 0 <= j < i && (#[trigger] writes[j]).entity_id@ == key;
                assert(graph.write_error(writes, i as int) == Some(
                    GraphError::DuplicateWrite { entity_id: update.entity_id },
                ));
                return Err(GraphError::DuplicateWrite { entity_id: update.entity_id });
            }
            assert(!(exists|j: int| 0 <= j < i && (#[trigger] writes[j]).entity_id@ == key)) by {
                if exists|j: int| 0 <= j < i && (#[trigger] writes[j]).entity_id@ == key {
                    let j = choose|j: int| 0 <= j < i && (#[trigger] writes[j]).entity_id@ == key;
                    assert(Set::new(
                        |k: u128| exists|j: int| 0 <= j < i && (#[trigger] writes[j]).entity_id@ == k,
                    ).contains(key));
                }
            }
            let current = match self.current_state(update.entity_id) {
                Ok(current) => current,
                Err(error) => {
                    return Err(error);
                },
            };
            if current.version.value() != update.expected_version.value() {
                return Err(
                    GraphError::VersionConflict {
                        entity_id: update.entity_id,
                        expected: update.expected_version,
                        actual: current.version,
                    },
                );
            }
            assert(graph.write_error(writes, i as int) is None);
            i += 1;
            assert(written_entities@ =~= Set::new(
                |k: u128| exists|j: int| 0 <= j < i && (#[trigger] writes[j]).entity_id@ == k,
            )) by {
                assert(writes[i - 1].entity_id@ == key);
            }
        }
        let ghost reads = mutation@.reads;
        let mut r: usize = 0;
        while r < mutation.reads.len()
            invariant
                graph == self@,
                graph.wf(),
                reads == mutation@.reads,
                0 <= r <= reads.len(),
                writes == mutation@.writes,
                writes.len() > 0,
                graph.first_write_error(writes, 0) is None,
                graph.first_read_error(reads, 0) == graph.first_read_error(reads, r as int),
            decreases reads.len() - r,
        {
            let dependency = mutation.reads[r];
            assert(reads[r as int] == dependency);
            if !self.state_ref_exists(dependency) {
                return Err(GraphError::StateReferenceNotFound { state_ref: dependency });
            }
            r += 1;
        }
        Ok(())
    }

    /// Checks whether a state reference exists in immutable entity history.
    fn state_ref_exists(&self, state_ref: StateRef) -> (exists: bool)
        ensures
            exists == self@.state_ref_exists(state_ref),
    {
        match self.history.get(&state_ref.entity_id.bits()) {
            Some(nodes) => {
                assert(self@.history.contains_key(state_ref.entity_id@));
                let ghost history = self@.history[state_ref.entity_id@];
                assert(history == nodes_view(nodes@));
                let mut k: usize = 0;
                while k < nodes.len()
                    invariant
                        history == nodes_view(nodes@),
                        self@.history.contains_key(state_ref.entity_id@),
                        history == self@.history[state_ref.entity_id@],
                        0 <= k <= nodes.len(),
                        forall|j: int|
                            0 <= j < k ==> (#[trigger] history[j]).version@ != state_ref.version@,
                    decreases nodes.len() - k,
                {
                    if nodes[k].version.value() == state_ref.version.value() {
                        assert(history[k as int] == nodes@[k as int]@);
                        assert(self@.history[state_ref.entity_id@][k as int].version@
                            == state_ref.version@);
                        return true;
                    }
                    k += 1;
                }
                false
            },
            None => false,
        }
    }
}

} // verus!

verus! {

proof fn lemma_no_write_error_from(graph: GraphView, writes: Seq<EntityUpdateView>, i: int)
    requires
        0 <= i,
        graph.first_write_error(writes, i) is None,
    ensures
        forall|j: int| i <= j < writes.len() ==> graph.write_error(writes, j) is None,
    decreases writes.len() - i,
{
    if i < writes.len() {
        lemma_no_write_error_from(graph, writes, i + 1);
    }
}

proof fn lemma_no_read_error_from(graph: GraphView, reads: Seq<StateRef>, i: int)
    requires
        0 <= i,
        graph.first_read_error(reads, i) is None,
    ensures
        forall|j: int| i <= j < reads.len() ==> graph.state_ref_exists(#[trigger] reads[j]),
    decreases reads.len() - i,
{
    if i < reads.len() {
        lemma_no_read_error_from(graph, reads, i + 1);
    }
}

/// A mutation passes validation exactly when it writes something, its writes
/// target distinct known entities at their current versions, and each of its
/// reads names a version in history.
pub proof fn lemma_validate_ok(graph: GraphView, mutation: MutationView)
    ensures
        graph.validate(mutation) is Ok <==> {
            &&& mutation.writes.len() > 0
            &&& forall|i: int|
                0 <= i < mutation.writes.len() ==> {
                    let update = #[trigger] mutation.writes[i];
                    &&& graph.contains_entity(update.entity_id@)
                    &&& graph.current(update.entity_id@).version@ == update.expected_version@
                }
            &&& forall|i: int, j: int|
                0 <= i < mutation.writes.len() && 0 <= j < mutation.writes.len() && i != j
                    ==> (#[trigger] mutation.writes[i]).entity_id@ != (#[trigger] mutation.writes[
                    j]).entity_id@
            &&& forall|i: int|
                0 <= i < mutation.reads.len() ==> graph.state_ref_exists(
                    #[trigger] mutation.reads[i],
                )
        },
{
    let writes = mutation.writes;
    let reads = mutation.reads;
    if graph.validate(mutation) is Ok {
        lemma_no_write_error_from(graph, writes, 0);
        lemma_no_read_error_from(graph, reads, 0);
        assert forall|i: int| 0 <= i < writes.len() implies {
            let update = #[trigger] writes[i];
            &&& graph.contains_entity(update.entity_id@)
            &&& graph.current(update.entity_id@).version@ == update.expected_version@
        } by {
            assert(graph.write_error(writes, i) is None);
        }
        assert forall|i: int, j: int|
            0 <= i < writes.len() && 0 <= j < writes.len() && i != j implies (
            #[trigger] writes[i]).entity_id@ != (#[trigger] writes[j]).entity_id@ by {
            if i < j {
                assert(graph.write_error(writes, j) is None);
            } else {
                assert(graph.write_error(writes, i) is None);
            }
        }
    } else if mutation.writes.len() > 0 && (forall|i: int|
        0 <= i < mutation.writes.len() ==> {
            let update = #[trigger] mutation.writes[i];
            &&& graph.contains_entity(update.entity_id@)
            &&& graph.current(update.entity_id@).version@ == update.expected_version@
        }) && (forall|i: int, j: int|
        0 <= i < mutation.writes.len() && 0 <= j < mutation.writes.len() && i != j
            ==> (#[trigger] mutation.writes[i]).entity_id@ != (#[trigger] mutation.writes[
            j]).entity_id@) {
        assert forall|j: int| 0 <= j < writes.len() implies graph.write_error(writes, j) is None by {
            let update = writes[j];
            assert(!exists|k: int| 0 <= k < j && (#[trigger] writes[k]).entity_id@ == update.entity_id@);
        }
        lemma_first_write_error_none(graph, writes, 0);
        if forall|i: int| 0 <= i < reads.len() ==> graph.state_ref_exists(#[trigger] reads[i]) {
            lemma_first_read_error_none(graph, reads, 0);
        }
    }
}

proof fn lemma_first_write_error_none(graph: GraphView, writes: Seq<EntityUpdateView>, i: int)
    requires
        0 <= i,
        forall|j: int| i <= j < writes.len() ==> graph.write_error(writes, j) is None,
    ensures
        graph.first_write_error(writes, i) is None,
    decreases writes.len() - i,
{
    if i < writes.len() {
        lemma_first_write_error_none(graph, writes, i + 1);
    }
}

proof fn lemma_first_read_error_none(graph: GraphView, reads: Seq<StateRef>, i: int)
    requires
        0 <= i,
        forall|j: int| i <= j < reads.len() ==> graph.state_ref_exists(#[trigger] reads[j]),
    ensures
        graph.first_read_error(reads, i) is None,
    decreases reads.len() - i,
{
    if i < reads.len() {
        lemma_first_read_error_none(graph, reads, i + 1);
    }
}

/// Inserting a new entity keeps the engine's invariant.
pub proof fn lemma_inserted_preserves_wf(graph: GraphView, entity: Entity, post: GraphView)
    requires
        graph.wf(),
        !graph.contains_entity(entity.id@),
        graph.inserted(entity, post),
    ensures
        post.wf(),
{
    let key = entity.id@;
    let node = post.history[key][0];
    assert forall|e: u128| #[trigger] post.history.contains_key(e) implies history_wf(
        e,
        post.history[e],
        post.mutations,
    ) by {
        if e != key {
            assert(graph.history.contains_key(e));
        }
    }
    assert forall|id: u128| #[trigger] post.node_ids.contains(id) <==> post.has_node_id(id) by {
        if post.node_ids.contains(id) {
            if id == node.id@ {
                assert(post.history[key][0].id@ == id);
            } else {
                assert(graph.node_ids.contains(id));
                assert(graph.has_node_id(id));
                let (e, i) = choose|e: u128, i: int|
                    graph.history.contains_key(e) && 0 <= i < graph.history[e].len() && (
                    #[trigger] graph.history[e][i]).id@ == id;
                assert(post.history[e][i] == graph.history[e][i]);
            }
        }
        if post.has_node_id(id) {
            let (e, i) = choose|e: u128, i: int|
                post.history.contains_key(e) && 0 <= i < post.history[e].len() && (
                #[trigger] post.history[e][i]).id@ == id;
            if e != key {
                assert(graph.history.contains_key(e));
                assert(post.history[e][i] == graph.history[e][i]);
                assert(graph.has_node_id(id));
            }
        }
    }
    assert forall|e1: u128, i1: int, e2: u128, i2: int|
        #![trigger post.history[e1][i1], post.history[e2][i2]]
        post.history.contains_key(e1) && post.history.contains_key(e2) && 0 <= i1
            < post.history[e1].len() && 0 <= i2 < post.history[e2].len() && (e1 != e2 || i1
            != i2) implies post.history[e1][i1].id@ != post.history[e2][i2].id@ by {
        if e1 != key {
            assert(graph.history.contains_key(e1));
            assert(post.history[e1][i1] == graph.history[e1][i1]);
            assert(graph.has_node_id(post.history[e1][i1].id@));
        }
        if e2 != key {
            assert(graph.history.contains_key(e2));
            assert(post.history[e2][i2] == graph.history[e2][i2]);
            assert(graph.has_node_id(post.history[e2][i2].id@));
        }
    }
}

/// Applying a valid mutation keeps the engine's invariant.
pub proof fn lemma_applied_preserves_wf(
    graph: GraphView,
    mutation: MutationView,
    commit: CommitView,
    post: GraphView,
)
    requires
        graph.wf(),
        graph.validate(mutation) is Ok,
        graph.applied(mutation, commit, post),
    ensures
        post.wf(),
{
    lemma_validate_ok(graph, mutation);
    let writes = mutation.writes;
    assert forall|entity: u128| #[trigger] post.history.contains_key(entity) implies history_wf(
        entity,
        post.history[entity],
        post.mutations,
    ) by {
        assert(graph.history.contains_key(entity));
        let old_nodes = graph.history[entity];
        assert(history_wf(entity, old_nodes, graph.mutations));
        if GraphView::writes_entity(mutation, entity) {
            let i = choose|i: int|
                0 <= i < writes.len() && (#[trigger] writes[i]).entity_id@ == entity;
            let update = writes[i];
            let transition = commit.transitions[i];
            let nodes = post.history[entity];
            assert(nodes == old_nodes.push(successor_node(mutation, update, transition)));
            let last = old_nodes.len() - 1;
            assert(old_nodes[last].version@ == last + 1);
            assert forall|j: int| 0 <= j < nodes.len() implies {
                let node = #[trigger] nodes[j];
                &&& node.entity_id@ == entity
                &&& node.version@ == j + 1
                &&& j == 0 ==> node.previous_version is None && node.caused_by is None
                &&& j > 0 ==> {
                    &&& node.previous_version matches Some(previous) && previous@ == j
                    &&& node.caused_by matches Some(cause) && post.mutations.contains_key(cause@)
                }
            } by {
                if j < old_nodes.len() {
                    assert(nodes[j] == old_nodes[j]);
                }
            }
        } else {
            assert(post.history[entity] == old_nodes);
            let nodes = old_nodes;
            assert forall|j: int| 0 <= j < nodes.len() implies {
                let node = #[trigger] nodes[j];
                j > 0 ==> (node.caused_by matches Some(cause) && post.mutations.contains_key(
                    cause@,
                ))
            } by {}
        }
    }
    assert(post.commits.dom() =~= post.mutations.dom());
    lemma_applied_node_ids(graph, mutation, commit, post);
}

/// Where a node of the graph after a mutation comes from: either it was
/// already in the graph at the same place (`None`), or it is the new last
/// node of a written entity, created by the write at the returned index.
proof fn lemma_applied_node_origin(
    graph: GraphView,
    mutation: MutationView,
    commit: CommitView,
    post: GraphView,
    entity: u128,
    i: int,
) -> (write: Option<int>)
    requires
        graph.applied(mutation, commit, post),
        post.history.contains_key(entity),
        0 <= i < post.history[entity].len(),
    ensures
        graph.history.contains_key(entity),
        write is None ==> i < graph.history[entity].len() && post.history[entity][i]
            == graph.history[entity][i],
        write matches Some(w) ==> {
            &&& 0 <= w < mutation.writes.len()
            &&& mutation.writes[w].entity_id@ == entity
            &&& i == graph.history[entity].len()
            &&& post.history[entity][i].id == commit.transitions[w].new_node_id
        },
{
    assert(graph.history.contains_key(entity));
    if GraphView::writes_entity(mutation, entity) {
        let w = choose|w: int|
            0 <= w < mutation.writes.len() && (#[trigger] mutation.writes[w]).entity_id@ == entity;
        let update = mutation.writes[w];
        assert(post.history[entity] == graph.history[entity].push(
            successor_node(mutation, update, commit.transitions[w]),
        ));
        if i < graph.history[entity].len() {
            None
        } else {
            Some(w)
        }
    } else {
        None
    }
}

/// After a valid mutation, the graph's set of node identifiers is exactly
/// that of its nodes, and no two nodes share one.
proof fn lemma_applied_node_ids(
    graph: GraphView,
    mutation: MutationView,
    commit: CommitView,
    post: GraphView,
)
    requires
        graph.wf(),
        graph.validate(mutation) is Ok,
        graph.applied(mutation, commit, post),
    ensures
        post.node_ids.finite(),
        forall|id: u128| #[trigger] post.node_ids.contains(id) <==> post.has_node_id(id),
        post.node_ids_distinct(),
{
    lemma_validate_ok(graph, mutation);
    let writes = mutation.writes;
    let ids = Seq::new(commit.transitions.len(), |j: int| commit.transitions[j].new_node_id@);
    assert forall|id: u128| GraphView::new_node_ids(commit).contains(id) implies ids.to_set().contains(
        id,
    ) by {
        let j = choose|j: int|
            0 <= j < commit.transitions.len() && (#[trigger] commit.transitions[j]).new_node_id@
                == id;
        assert(ids[j] == id);
    }
    vstd::set_lib::lemma_len_subset(GraphView::new_node_ids(commit), ids.to_set());
    assert forall|id: u128| #[trigger] post.node_ids.contains(id) <==> post.has_node_id(id) by {
        if post.node_ids.contains(id) {
            if graph.node_ids.contains(id) {
                assert(graph.has_node_id(id));
                let (e, i) = choose|e: u128, i: int|
                    graph.history.contains_key(e) && 0 <= i < graph.history[e].len() && (
                    #[trigger] graph.history[e][i]).id@ == id;
                if GraphView::writes_entity(mutation, e) {
                    let w = choose|w: int|
                        0 <= w < writes.len() && (#[trigger] writes[w]).entity_id@ == e;
                    assert(post.history[e] == graph.history[e].push(
                        successor_node(mutation, writes[w], commit.transitions[w]),
                    ));
                }
                assert(post.history[e][i] == graph.history[e][i]);
            } else {
                let w = choose|w: int|
                    0 <= w < commit.transitions.len() && (
                    #[trigger] commit.transitions[w]).new_node_id@ == id;
                let e = writes[w].entity_id@;
                assert(post.history[e] == graph.history[e].push(
                    successor_node(mutation, writes[w], commit.transitions[w]),
                ));
                assert(post.history[e][graph.history[e].len() as int].id@ == id);
            }
        }
        if post.has_node_id(id) {
            let (e, i) = choose|e: u128, i: int|
                post.history.contains_key(e) && 0 <= i < post.history[e].len() && (
                #[trigger] post.history[e][i]).id@ == id;
            let origin = lemma_applied_node_origin(graph, mutation, commit, post, e, i);
            match origin {
                None => {
                    assert(graph.has_node_id(id));
                },
                Some(w) => {
                    assert(GraphView::new_node_ids(commit).contains(id));
                },
            }
        }
    }
    assert forall|e1: u128, i1: int, e2: u128, i2: int|
        #![trigger post.history[e1][i1], post.history[e2][i2]]
        post.history.contains_key(e1) && post.history.contains_key(e2) && 0 <= i1
            < post.history[e1].len() && 0 <= i2 < post.history[e2].len() && (e1 != e2 || i1
            != i2) implies post.history[e1][i1].id@ != post.history[e2][i2].id@ by {
        let o1 = lemma_applied_node_origin(graph, mutation, commit, post, e1, i1);
        let o2 = lemma_applied_node_origin(graph, mutation, commit, post, e2, i2);
        match (o1, o2) {
            (None, None) => {},
            (Some(w1), None) => {
                assert(graph.has_node_id(graph.history[e2][i2].id@));
            },
            (None, Some(w2)) => {
                assert(graph.has_node_id(graph.history[e1][i1].id@));
            },
            (Some(w1), Some(w2)) => {
                if w1 == w2 {
                    assert(e1 == e2);
                } else if w1 < w2 {
                    assert(commit.transitions[w1].new_node_id@ != commit.transitions[w2].new_node_id@);
                } else {
                    assert(commit.transitions[w2].new_node_id@ != commit.transitions[w1].new_node_id@);
                }
            },
        }
    }
}

/// The `k`-th identifier of the sequence from which a fresh node identifier is
/// taken when a random one is already in use: the bits of `k` laid around the
/// fixed bits of a version 4 UUID.
pub open spec fn fallback_node_bits(k: u128) -> u128 {
    0x4000_8000_0000_0000_0000u128 | (k & 0x3FFF_FFFF_FFFF_FFFFu128) | ((k >> 62u128) << 64u128)
}

/// The fallback identifiers below 2^74 are version 4 UUIDs and differ from
/// each other.
proof fn lemma_fallback_node_bits(a: u128, b: u128)
    requires
        a < 0x400_0000_0000_0000_0000u128,
        b < 0x400_0000_0000_0000_0000u128,
    ensures
        is_v4_bits(fallback_node_bits(a)),
        fallback_node_bits(a) == fallback_node_bits(b) ==> a == b,
{
    assert((0x4000_8000_0000_0000_0000u128 | (a & 0x3FFF_FFFF_FFFF_FFFFu128) | ((a >> 62u128)
        << 64u128)) & 0xF000_C000_0000_0000_0000u128 == 0x4000_8000_0000_0000_0000u128)
        by (bit_vector)
        requires
            a < 0x400_0000_0000_0000_0000u128,
    ;
    assert((0x4000_8000_0000_0000_0000u128 | (a & 0x3FFF_FFFF_FFFF_FFFFu128) | ((a >> 62u128)
        << 64u128)) == (0x4000_8000_0000_0000_0000u128 | (b & 0x3FFF_FFFF_FFFF_FFFFu128) | ((b
        >> 62u128) << 64u128)) ==> a == b) by (bit_vector)
        requires
            a < 0x400_0000_0000_0000_0000u128,
            b < 0x400_0000_0000_0000_0000u128,
    ;
}

/// A finite set of identifiers with `n` elements misses one of the first
/// `n + 1` fallback identifiers.
proof fn lemma_fallback_not_all_used(used: Set<u128>, n: u128)
    requires
        used.finite(),
        used.len() == n,
        n < 0x400_0000_0000_0000_0000u128,
    ensures
        exists|j: u128| j <= n && !used.contains(#[trigger] fallback_node_bits(j)),
{
    if forall|j: u128| j <= n ==> used.contains(#[trigger] fallback_node_bits(j)) {
        let s = Seq::new((n + 1) as nat, |j: int| fallback_node_bits(j as u128));
        assert forall|i: int, j: int| 0 <= i < s.len() && 0 <= j < s.len() && i != j implies s[i]
            != s[j] by {
            lemma_fallback_node_bits(i as u128, j as u128);
        }
        assert(s.no_duplicates());
        s.unique_seq_to_set();
        assert forall|x: u128| s.to_set().contains(x) implies used.contains(x) by {
            let i = choose|i: int| 0 <= i < s.len() && s[i] == x;
            assert(used.contains(fallback_node_bits(i as u128)));
        }
        vstd::set_lib::lemma_len_subset(s.to_set(), used);
    }
}

/// The identifier for a new node: the random `candidate` when no node of the
/// graph (`used`) and no node drawn before it for the same operation
/// (`drawn`) has it, and otherwise the first fallback identifier that is free.
fn fresh_node_id(candidate: NodeId, used: &HashSet<u128>, drawn: &HashSet<u128>) -> (id: NodeId)
    requires
        is_v4_bits(candidate@),
        used@.finite(),
        drawn@.finite(),
    ensures
        is_v4_bits(id@),
        !used@.contains(id@),
        !drawn@.contains(id@),
        !used@.contains(candidate@) && !drawn@.contains(candidate@) ==> id == candidate,
{
    let bits = candidate.bits();
    if !used.contains(&bits) && !drawn.contains(&bits) {
        return candidate;
    }
    let ghost taken = used@.union(drawn@);
    proof {
        vstd::set_lib::lemma_len_union(used@, drawn@);
    }
    let bound: u128 = used.len() as u128 + drawn.len() as u128;
    let mut k: u128 = 0;
    while k <= bound
        invariant
            taken == used@.union(drawn@),
            used@.contains(candidate@) || drawn@.contains(candidate@),
            taken.finite(),
            taken.len() <= bound,
            bound < 0x400_0000_0000_0000_0000u128,
            k <= bound + 1,
            forall|j: u128| j < k ==> taken.contains(#[trigger] fallback_node_bits(j)),
        decreases bound + 1 - k,
    {
        let next_bits = 0x4000_8000_0000_0000_0000u128 | (k & 0x3FFF_FFFF_FFFF_FFFFu128) | ((k
            >> 62u128) << 64u128);
        assert(next_bits == fallback_node_bits(k));
        proof {
            lemma_fallback_node_bits(k, k);
        }
        if !used.contains(&next_bits) && !drawn.contains(&next_bits) {
            return NodeId::from_bits(next_bits);
        }
        k += 1;
    }
    proof {
        let n = taken.len() as u128;
        lemma_fallback_not_all_used(taken, n);
        let j = choose|j: u128| j <= n && !taken.contains(#[trigger] fallback_node_bits(j));
        assert(j < k);
    }
    vstd::pervasive::unreached()
}

} // verus!
