use vstd::prelude::*;

use crate::contextoid::{Contextoid, Data, RelationKind, Space, SpaceTime, Time};
use crate::errors::ContextIndexError;
use crate::graph::{Graph, GraphError};
use crate::text::{append_decimal, decimal};
use vstd::string::StringExecFns;

verus! {

/// A context over the base data, space and time types with `u64` values.
pub type BaseContext = Context<Data<u64>, Space<u64>, Time<u64>, SpaceTime<u64>>;

/// The outcome of one node operation on a context.
#[derive(Clone, Copy, Debug, PartialEq, Eq, Structural)]
pub enum NodeChange {
    /// `add_node` put a contextoid under a fresh index.
    Added,
    /// `remove_node` succeeded.
    Removed,
    /// `remove_node` failed and changed nothing.
    Refused,
}

impl NodeChange {
    /// How the number of contextoids moves under this outcome.
    pub open spec fn delta(self) -> int {
        match self {
            NodeChange::Added => 1,
            NodeChange::Removed => -1,
            NodeChange::Refused => 0,
        }
    }
}

/// The sum of the moves of a run of outcomes.
pub open spec fn total_delta(changes: Seq<NodeChange>) -> int
    decreases changes.len(),
{
    if changes.len() == 0 {
        0
    } else {
        total_delta(changes.drop_last()) + changes.last().delta()
    }
}

/// The contextual environment a causaloid may consult: contextoids connected
/// by edges that carry the code of a relation kind.
///
/// Indices are handed out in order and never given out again, also after
/// their node was removed; removing a node removes the edges that touch it.
pub struct Context<D, S, T, ST> {
    id: u64,
    name: String,
    graph: Graph<Contextoid<D, S, T, ST>>,
}

impl<D, S, T, ST> Context<D, S, T, ST> {
    pub closed spec fn spec_id(&self) -> u64 {
        self.id
    }

    pub closed spec fn spec_name(&self) -> Seq<char> {
        self.name@
    }

    /// The contextoids, by index.
    pub closed spec fn nodes(&self) -> Map<usize, Contextoid<D, S, T, ST>> {
        self.graph.nodes_view()
    }

    /// The edges, as (source, target, weight), in the order they were added.
    pub closed spec fn edges(&self) -> Seq<(usize, usize, u64)> {
        self.graph.edges_view()
    }

    /// The index that the next added contextoid gets.
    pub closed spec fn next_index(&self) -> nat {
        self.graph.next_index_view()
    }

    pub closed spec fn wf(&self) -> bool {
        self.graph.wf()
    }

    /// `after` is `before` with `value` added under the fresh index `index`.
    pub open spec fn spec_added(before: Self, after: Self, value: Contextoid<D, S, T, ST>, index: usize) -> bool {
        &&& index == before.next_index()
        &&& after.nodes() == before.nodes().insert(index, value)
        &&& after.next_index() == before.next_index() + 1
        &&& after.edges() == before.edges()
    }

    /// `after` is `before` without the contextoid at `index`, which was there.
    pub open spec fn spec_removed(before: Self, after: Self, index: usize) -> bool {
        &&& before.nodes().contains_key(index)
        &&& after.nodes() == before.nodes().remove(index)
    }

    /// `after` came from `before` by one node operation with outcome `change`.
    pub open spec fn spec_step(before: Self, after: Self, change: NodeChange) -> bool {
        &&& before.wf()
        &&& after.wf()
        &&& match change {
            NodeChange::Added => exists|v: Contextoid<D, S, T, ST>, i: usize| #[trigger]
                Self::spec_added(before, after, v, i),
            NodeChange::Removed => exists|i: usize| #[trigger] Self::spec_removed(before, after, i),
            NodeChange::Refused => after.nodes() == before.nodes(),
        }
    }

    /// Over any run of node operations, the number of contextoids grows by
    /// one for each addition and shrinks by one for each successful removal;
    /// failed removals leave it as it was.
    pub proof fn law_node_count(states: Seq<Self>, changes: Seq<NodeChange>)
        requires
            states.len() == changes.len() + 1,
            forall|k: int|
                0 <= k < changes.len() ==> Self::spec_step(
                    #[trigger] states[k],
                    states[k + 1],
                    changes[k],
                ),
        ensures
            states.last().nodes().len() == states[0].nodes().len() + total_delta(changes),
        decreases changes.len(),
    {
        if changes.len() > 0 {
            let n = changes.len() - 1;
            let prev = states.drop_last();
            assert forall|k: int| 0 <= k < changes.drop_last().len() implies Self::spec_step(
                #[trigger] prev[k],
                prev[k + 1],
                changes.drop_last()[k],
            ) by {
                assert(Self::spec_step(states[k], states[k + 1], changes[k]));
            }
            Self::law_node_count(prev, changes.drop_last());
            let before = states[n];
            let after = states[n + 1];
            assert(Self::spec_step(before, after, changes[n]));
            before.lemma_wf_facts();
            match changes[n] {
                NodeChange::Added => {
                    let (v, i) = choose|v: Contextoid<D, S, T, ST>, i: usize| #[trigger]
                        Self::spec_added(before, after, v, i);
                    assert(!before.nodes().contains_key(i));
                    assert(after.nodes().dom() =~= before.nodes().dom().insert(i));
                },
                NodeChange::Removed => {
                    let i = choose|i: usize| #[trigger] Self::spec_removed(before, after, i);
                    assert(after.nodes().dom() =~= before.nodes().dom().remove(i));
                },
                NodeChange::Refused => {},
            }
        }
    }

    /// Two additions in a row hand out two different indices, also for equal
    /// values, and both values stay in the context under their index.
    pub proof fn law_add_node_distinct(
        c0: Self,
        c1: Self,
        c2: Self,
        v1: Contextoid<D, S, T, ST>,
        v2: Contextoid<D, S, T, ST>,
        i1: usize,
        i2: usize,
    )
        requires
            Self::spec_added(c0, c1, v1, i1),
            Self::spec_added(c1, c2, v2, i2),
        ensures
            i1 != i2,
            c2.nodes().contains_key(i1) && c2.nodes()[i1] == v1,
            c2.nodes().contains_key(i2) && c2.nodes()[i2] == v2,
    {
    }

    pub open spec fn spec_has_edge(&self, a: usize, b: usize) -> bool {
        crate::graph::has_pair(self.edges(), a, b)
    }

    /// What every well-formed context satisfies: nodes lie below the next
    /// index, edges join present nodes, and no ordered pair is joined twice.
    pub proof fn lemma_wf_facts(&self)
        requires
            self.wf(),
        ensures
            forall|i: usize| #[trigger] self.nodes().contains_key(i) ==> i < self.next_index(),
            forall|a: usize, b: usize|
                #[trigger] self.spec_has_edge(a, b) ==> self.nodes().contains_key(a)
                    && self.nodes().contains_key(b),
            crate::graph::unique_pairs(self.edges()),
            self.nodes().dom().finite(),
    {
        self.graph.lemma_wf_facts();
        self.lemma_edges_join_nodes();
    }

    pub fn new(id: u64, name: String) -> (r: Self)
        ensures
            r.wf(),
            r.spec_id() == id,
            r.spec_name() == name@,
            r.nodes() == Map::<usize, Contextoid<D, S, T, ST>>::empty(),
            r.edges() == Seq::<(usize, usize, u64)>::empty(),
            r.next_index() == 0,
    {
        Context { id, name, graph: Graph::new() }
    }

    proof fn lemma_edges_join_nodes(&self)
        requires
            self.wf(),
        ensures
            forall|x: usize, y: usize|
                #[trigger] self.spec_has_edge(x, y) ==> self.nodes().contains_key(x)
                    && self.nodes().contains_key(y),
    {
        self.graph.lemma_wf_facts();
        assert forall|x: usize, y: usize| #[trigger] self.spec_has_edge(x, y) implies self.nodes().contains_key(x)
            && self.nodes().contains_key(y) by {
            assert(self.graph.spec_has_edge(x, y));
        }
    }

    /// Adds a contextoid under a fresh index, also when an equal one is there.
    pub fn add_node(&mut self, value: Contextoid<D, S, T, ST>) -> (r: usize)
        requires
            old(self).wf(),
            old(self).next_index() < usize::MAX,
        ensures
            final(self).wf(),
            r == old(self).next_index(),
            !old(self).nodes().contains_key(r),
            final(self).nodes() == old(self).nodes().insert(r, value),
            final(self).nodes().len() == old(self).nodes().len() + 1,
            final(self).edges() == old(self).edges(),
            final(self).next_index() == old(self).next_index() + 1,
            final(self).spec_id() == old(self).spec_id(),
            final(self).spec_name() == old(self).spec_name(),
            Self::spec_added(*old(self), *final(self), value, r),
    {
        proof {
            self.graph.lemma_wf_facts();
        }
        self.graph.add_node(value)
    }

    pub fn id(&self) -> (r: u64)
        ensures
            r == self.spec_id(),
    {
        self.id
    }

    pub fn name(&self) -> (r: &str)
        ensures
            r@ == self.spec_name(),
    {
        self.name.as_str()
    }

    pub fn contains_node(&self, index: usize) -> (r: bool)
        ensures
            r == self.nodes().contains_key(index),
    {
        self.graph.contains_node(index)
    }

    pub fn get_node(&self, index: usize) -> (r: Option<&Contextoid<D, S, T, ST>>)
        ensures
            match r {
                Some(v) => self.nodes().contains_key(index) && *v == self.nodes()[index],
                None => !self.nodes().contains_key(index),
            },
    {
        self.graph.get_node(index)
    }

    /// Removes a contextoid and the edges that touch it.
    pub fn remove_node(&mut self, index: usize) -> (r: Result<(), ContextIndexError>)
        requires
            old(self).wf(),
        ensures
            final(self).wf(),
            final(self).spec_id() == old(self).spec_id(),
            final(self).spec_name() == old(self).spec_name(),
            final(self).next_index() == old(self).next_index(),
            r == (if old(self).nodes().contains_key(index) {
                Ok::<(), ContextIndexError>(())
            } else {
                Err(ContextIndexError::NodeNotFound(index))
            }),
            r is Ok ==> final(self).nodes() == old(self).nodes().remove(index),
            r is Ok ==> Self::spec_removed(*old(self), *final(self), index),
            r is Ok ==> final(self).nodes().len() + 1 == old(self).nodes().len(),
            r is Err ==> final(self).nodes() == old(self).nodes(),
            r is Err ==> final(self).edges() == old(self).edges(),
            !final(self).nodes().contains_key(index),
            forall|x: usize, y: usize|
                #[trigger] final(self).spec_has_edge(x, y) == (old(self).spec_has_edge(x, y) && x
                    != index && y != index),
    {
        proof {
            self.lemma_edges_join_nodes();
        }
        if !self.graph.contains_node(index) {
            return Err(ContextIndexError::NodeNotFound(index));
        }
        proof {
            self.graph.lemma_wf_facts();
        }
        let ghost before = self.graph;
        match self.graph.remove_node(index) {
            Ok(()) => {
                proof {
                    assert(self.nodes().dom() =~= before.nodes_view().dom().remove(index));
                    assert forall|x: usize, y: usize| #[trigger] self.spec_has_edge(x, y) == (
                    old(self).spec_has_edge(x, y) && x != index && y != index) by {
                        assert(self.graph.spec_has_edge(x, y) == (before.spec_has_edge(x, y) && x
                            != index && y != index));
                    }
                }
                Ok(())
            },
            Err(_) => Err(ContextIndexError::NodeNotFound(index)),
        }
    }

    /// Adds an edge from `a` to `b` weighted with the relation's code. The
    /// endpoints are checked in order, `a` first.
    pub fn add_edge(&mut self, a: usize, b: usize, weight: RelationKind) -> (r: Result<(), ContextIndexError>)
        requires
            old(self).wf(),
        ensures
            final(self).wf(),
            final(self).spec_id() == old(self).spec_id(),
            final(self).spec_name() == old(self).spec_name(),
            final(self).nodes() == old(self).nodes(),
            final(self).next_index() == old(self).next_index(),
            r == (if !old(self).nodes().contains_key(a) {
                Err::<(), ContextIndexError>(ContextIndexError::SourceNotFound(a))
            } else if !old(self).nodes().contains_key(b) {
                Err(ContextIndexError::TargetNotFound(b))
            } else if old(self).spec_has_edge(a, b) {
                Err(ContextIndexError::EdgeFailure(a, b))
            } else {
                Ok(())
            }),
            r is Ok ==> final(self).edges() == old(self).edges().push((a, b, weight.spec_code())),
            r is Err ==> final(self).edges() == old(self).edges(),
    {
        if !self.graph.contains_node(a) {
            return Err(ContextIndexError::SourceNotFound(a));
        }
        if !self.graph.contains_node(b) {
            return Err(ContextIndexError::TargetNotFound(b));
        }
        match self.graph.add_edge_with_weight(a, b, weight.code()) {
            Ok(()) => Ok(()),
            Err(_) => Err(ContextIndexError::EdgeFailure(a, b)),
        }
    }

    /// Whether an edge runs from `a` to `b`; false when either node is absent.
    pub fn contains_edge(&self, a: usize, b: usize) -> (r: bool)
        ensures
            r == self.spec_has_edge(a, b),
    {
        self.graph.contains_edge(a, b)
    }

    /// Removes the edge from `a` to `b`. The endpoints are checked in order,
    /// `a` first; an absent edge is an edge failure.
    pub fn remove_edge(&mut self, a: usize, b: usize) -> (r: Result<(), ContextIndexError>)
        requires
            old(self).wf(),
        ensures
            final(self).wf(),
            final(self).spec_id() == old(self).spec_id(),
            final(self).spec_name() == old(self).spec_name(),
            final(self).nodes() == old(self).nodes(),
            final(self).next_index() == old(self).next_index(),
            r == (if !old(self).nodes().contains_key(a) {
                Err::<(), ContextIndexError>(ContextIndexError::SourceNotFound(a))
            } else if !old(self).nodes().contains_key(b) {
                Err(ContextIndexError::TargetNotFound(b))
            } else if !old(self).spec_has_edge(a, b) {
                Err(ContextIndexError::EdgeFailure(a, b))
            } else {
                Ok(())
            }),
            forall|x: usize, y: usize|
                #[trigger] final(self).spec_has_edge(x, y) == (old(self).spec_has_edge(x, y) && !(x
                    == a && y == b)),
            r is Ok ==> final(self).edges().len() + 1 == old(self).edges().len(),
            r is Err ==> final(self).edges() == old(self).edges(),
    {
        proof {
            self.lemma_edges_join_nodes();
        }
        if !self.graph.contains_node(a) {
            return Err(ContextIndexError::SourceNotFound(a));
        }
        if !self.graph.contains_node(b) {
            return Err(ContextIndexError::TargetNotFound(b));
        }
        let ghost before = self.graph;
        let r = self.graph.remove_edge(a, b);
        proof {
            assert forall|x: usize, y: usize| #[trigger] self.spec_has_edge(x, y) == (
            old(self).spec_has_edge(x, y) && !(x == a && y == b)) by {
                assert(self.graph.spec_has_edge(x, y) == (before.spec_has_edge(x, y) && !(x == a
                    && y == b)));
            }
        }
        match r {
            Ok(()) => Ok(()),
            Err(_) => Err(ContextIndexError::EdgeFailure(a, b)),
        }
    }

    /// The number of contextoids; the same as `node_count`.
    pub fn size(&self) -> (r: usize)
        ensures
            r == self.nodes().len(),
    {
        self.graph.number_nodes()
    }

    pub fn is_empty(&self) -> (r: bool)
        ensures
            r == (self.nodes().len() == 0),
    {
        self.graph.is_empty()
    }

    pub fn node_count(&self) -> (r: usize)
        ensures
            r == self.nodes().len(),
    {
        self.graph.number_nodes()
    }

    pub fn edge_count(&self) -> (r: usize)
        ensures
            r == self.edges().len(),
    {
        self.graph.number_edges()
    }

    /// The text that `format` gives for a context.
    pub open spec fn spec_summary(id: u64, name: Seq<char>, nodes: nat, edges: nat) -> Seq<char> {
        "Context: id: "@ + decimal(id as nat) + ", name: "@ + name + ", node_count: "@
            + decimal(nodes) + ", edge_count: "@ + decimal(edges)
    }

    /// A one-line summary: id, name, node count and edge count.
    pub fn format(&self) -> (r: String)
        ensures
            r@ == Self::spec_summary(self.spec_id(), self.spec_name(), self.nodes().len(), self.edges().len()),
    {
        let mut s = String::new();
        s.append("Context: id: ");
        append_decimal(&mut s, self.id);
        s.append(", name: ");
        s.append(self.name.as_str());
        s.append(", node_count: ");
        append_decimal(&mut s, self.node_count() as u64);
        s.append(", edge_count: ");
        append_decimal(&mut s, self.edge_count() as u64);
        proof {
            assert(s@ =~= Self::spec_summary(self.id, self.name@, self.nodes().len(), self.edges().len()));
        }
        s
    }
}

} // verus!
