use vstd::prelude::*;

use crate::causaloid::{
    aggregate, is_wf_single, lemma_aggregate_stops, outcome, AggregationPolicy, CausalFn,
    Causaloid, CausaloidKind,
};
use crate::errors::{CausalityError, ContextIndexError};
use crate::graph::{has_pair, reachable, Graph};
use crate::numeric::NumericalValue;

verus! {

/// An index-addressed graph of causaloids, with the same referential contract
/// as a context: indices are never given out twice, edges join present nodes,
/// and every change names the index it failed on.
#[derive(Debug)]
pub struct CausaloidGraph<F> {
    graph: Graph<Causaloid<F>>,
}

impl<F: CausalFn> CausaloidGraph<F> {
    pub closed spec fn nodes(&self) -> Map<usize, Causaloid<F>> {
        self.graph.nodes_view()
    }

    pub closed spec fn edges(&self) -> Seq<(usize, usize, u64)> {
        self.graph.edges_view()
    }

    pub closed spec fn next_index(&self) -> nat {
        self.graph.next_index_view()
    }

    pub closed spec fn wf(&self) -> bool {
        self.graph.wf()
    }

    pub open spec fn spec_has_edge(&self, a: usize, b: usize) -> bool {
        has_pair(self.edges(), a, b)
    }

    pub fn new() -> (r: Self)
        ensures
            r.wf(),
            r.nodes() == Map::<usize, Causaloid<F>>::empty(),
            r.edges() == Seq::<(usize, usize, u64)>::empty(),
            r.next_index() == 0,
    {
        CausaloidGraph { graph: Graph::new() }
    }

    pub fn add_causaloid(&mut self, value: Causaloid<F>) -> (r: usize)
        requires
            old(self).wf(),
            old(self).next_index() < usize::MAX,
        ensures
            final(self).wf(),
            r == old(self).next_index(),
            !old(self).nodes().contains_key(r),
            final(self).nodes() == old(self).nodes().insert(r, value),
            final(self).edges() == old(self).edges(),
            final(self).next_index() == old(self).next_index() + 1,
    {
        self.graph.add_node(value)
    }

    pub fn contains_causaloid(&self, index: usize) -> (r: bool)
        ensures
            r == self.nodes().contains_key(index),
    {
        self.graph.contains_node(index)
    }

    pub fn get_causaloid(&self, index: usize) -> (r: Option<&Causaloid<F>>)
        ensures
            match r {
                Some(v) => self.nodes().contains_key(index) && *v == self.nodes()[index],
                None => !self.nodes().contains_key(index),
            },
    {
        self.graph.get_node(index)
    }

    /// Removes a causaloid and the edges that touch it.
    pub fn remove_causaloid(&mut self, index: usize) -> (r: Result<(), ContextIndexError>)
        requires
            old(self).wf(),
        ensures
            final(self).wf(),
            final(self).next_index() == old(self).next_index(),
            r == (if old(self).nodes().contains_key(index) {
                Ok::<(), ContextIndexError>(())
            } else {
                Err(ContextIndexError::NodeNotFound(index))
            }),
            r is Ok ==> final(self).nodes() == old(self).nodes().remove(index),
            r is Err ==> final(self).nodes() == old(self).nodes(),
            r is Err ==> final(self).edges() == old(self).edges(),
            !final(self).nodes().contains_key(index),
            forall|x: usize, y: usize|
                #[trigger] final(self).spec_has_edge(x, y) == (old(self).spec_has_edge(x, y) && x
                    != index && y != index),
    {
        proof {
            self.graph.lemma_wf_facts();
        }
        let ghost before = self.graph;
        let r = self.graph.remove_node(index);
        proof {
            assert forall|x: usize, y: usize| #[trigger] self.spec_has_edge(x, y) == (
            old(self).spec_has_edge(x, y) && x != index && y != index) by {
                assert(self.graph.spec_has_edge(x, y) == (before.spec_has_edge(x, y) && (r is Err
                    || (x != index && y != index))));
                if before.spec_has_edge(x, y) {
                    assert(before.nodes_view().contains_key(x) && before.nodes_view().contains_key(y));
                }
            }
        }
        match r {
            Ok(()) => Ok(()),
            Err(_) => Err(ContextIndexError::NodeNotFound(index)),
        }
    }

    /// Adds an edge from `a` to `b`; the endpoints are checked in order.
    pub fn add_edge(&mut self, a: usize, b: usize) -> (r: Result<(), ContextIndexError>)
        requires
            old(self).wf(),
        ensures
            final(self).wf(),
            final(self).nodes() == old(self).nodes(),
            final(self).next_index() == old(self).next_index(),
            r == (if !old(self).nodes().contains_key(a) {
                Err::<(), ContextIndexError>(ContextIndexError::SourceNotFound(a))
            } else if !old(self).nodes().contains_key(b) {
                Err(ContextIndexError::TargetNotFound(b))
            } else if old(self).spec_has_edge(a, b) {
                Err(ContextIndexError::EdgeFailure(a, b))
            } else {
                Ok(())
            }),
            r is Ok ==> final(self).edges() == old(self).edges().push((a, b, 0)),
            r is Err ==> final(self).edges() == old(self).edges(),
    {
        if !self.graph.contains_node(a) {
            return Err(ContextIndexError::SourceNotFound(a));
        }
        if !self.graph.contains_node(b) {
            return Err(ContextIndexError::TargetNotFound(b));
        }
        match self.graph.add_edge_with_weight(a, b, 0) {
            Ok(()) => Ok(()),
            Err(_) => Err(ContextIndexError::EdgeFailure(a, b)),
        }
    }

    pub fn contains_edge(&self, a: usize, b: usize) -> (r: bool)
        ensures
            r == self.spec_has_edge(a, b),
    {
        self.graph.contains_edge(a, b)
    }

    /// Removes the edge from `a` to `b`; the endpoints are checked in order.
    pub fn remove_edge(&mut self, a: usize, b: usize) -> (r: Result<(), ContextIndexError>)
        requires
            old(self).wf(),
        ensures
            final(self).wf(),
            final(self).nodes() == old(self).nodes(),
            r == (if !old(self).nodes().contains_key(a) {
                Err::<(), ContextIndexError>(ContextIndexError::SourceNotFound(a))
            } else if !old(self).nodes().contains_key(b) {
                Err(ContextIndexError::TargetNotFound(b))
            } else if !old(self).spec_has_edge(a, b) {
                Err(ContextIndexError::EdgeFailure(a, b))
            } else {
                Ok(())
            }),
            r is Err ==> final(self).edges() == old(self).edges(),
            r is Ok ==> final(self).edges().len() + 1 == old(self).edges().len(),
            final(self).next_index() == old(self).next_index(),
            forall|x: usize, y: usize|
                #[trigger] final(self).spec_has_edge(x, y) == (old(self).spec_has_edge(x, y) && !(x
                    == a && y == b)),
    {
        proof {
            self.graph.lemma_wf_facts();
        }
        let ghost before = self.graph;
        if !self.graph.contains_node(a) {
            proof {
                assert forall|x: usize, y: usize| #[trigger] self.spec_has_edge(x, y) implies !(x == a
                    && y == b) by {
                    assert(self.graph.spec_has_edge(x, y));
                }
            }
            return Err(ContextIndexError::SourceNotFound(a));
        }
        if !self.graph.contains_node(b) {
            proof {
                assert forall|x: usize, y: usize| #[trigger] self.spec_has_edge(x, y) implies !(x == a
                    && y == b) by {
                    assert(self.graph.spec_has_edge(x, y));
                }
            }
            return Err(ContextIndexError::TargetNotFound(b));
        }
        let r = self.graph.remove_edge(a, b);
        proof {
            assert forall|x: usize, y: usize| #[trigger] self.spec_has_edge(x, y) == (
            old(self).spec_has_edge(x, y) && !(x == a && y == b)) by {
                assert(self.graph.spec_has_edge(x, y) == (before.spec_has_edge(x, y) && !(x == a
                    && y == b)));
            }
        }
        match r {
            Ok(()) => Ok(()),
            Err(_) => Err(ContextIndexError::EdgeFailure(a, b)),
        }
    }

    /// Every causaloid of the graph is well formed.
    pub open spec fn causaloids_wf(&self) -> bool {
        forall|i: usize| #[trigger] self.nodes().contains_key(i) ==> self.nodes()[i].wf()
    }

    /// Every causaloid of the graph is a single one with a well-formed
    /// causal function.
    pub open spec fn singles_wf(&self) -> bool {
        forall|i: usize| #[trigger] self.nodes().contains_key(i) ==> is_wf_single(self.nodes()[i])
    }

    pub proof fn lemma_singles_wf(&self)
        requires
            self.singles_wf(),
        ensures
            self.causaloids_wf(),
    {
        assert forall|i: usize| #[trigger] self.nodes().contains_key(i) implies self.nodes()[i].wf() by {
            assert(is_wf_single(self.nodes()[i]));
        }
    }

    /// Whether every causaloid of the graph is a single one with a
    /// well-formed causal function.
    pub fn all_singles(&self) -> (r: bool)
        requires
            self.wf(),
        ensures
            r == self.singles_wf(),
    {
        proof {
            self.graph.lemma_wf_facts();
        }
        let bound = self.graph.index_bound();
        let mut i: usize = 0;
        while i < bound
            invariant
                self.wf(),
                bound == self.next_index(),
                i <= bound,
                forall|j: usize| j < i && #[trigger] self.nodes().contains_key(j) ==> is_wf_single(self.nodes()[j]),
            decreases bound - i,
        {
            match self.graph.get_node(i) {
                None => {},
                Some(c) => {
                    match c.kind() {
                        CausaloidKind::Singleton(f) => {
                            if !f.is_wf() {
                                proof {
                                    assert(self.nodes().contains_key(i));
                                    assert(!is_wf_single(self.nodes()[i]));
                                }
                                return false;
                            }
                        },
                        _ => {
                            proof {
                                assert(self.nodes().contains_key(i));
                                assert(!is_wf_single(self.nodes()[i]));
                            }
                            return false;
                        },
                    }
                },
            }
            i = i + 1;
        }
        proof {
            self.graph.lemma_wf_facts();
        }
        true
    }

    /// `v` is what evaluating from `start` may give: a failure when `start`
    /// is absent; else the verdicts of the nodes reachable from `start`,
    /// combined by `policy` in some order that lists each of them once and
    /// `start` first.
    pub open spec fn spec_evaluates_from(&self, start: usize, obs: NumericalValue, policy: AggregationPolicy, v: Result<bool, Seq<char>>) -> bool {
        if !self.nodes().contains_key(start) {
            v is Err
        } else {
            exists|order: Seq<usize>|
                #[trigger] self.is_reach_order(start, order) && v == aggregate(self.at(order), obs, policy)
        }
    }

    /// The causaloids at `order`, in that order.
    pub open spec fn at(&self, order: Seq<usize>) -> Seq<Causaloid<F>> {
        order.map_values(|i: usize| self.nodes()[i])
    }

    /// `order` lists the nodes reachable from `start`, each once, `start` first.
    pub open spec fn is_reach_order(&self, start: usize, order: Seq<usize>) -> bool {
        &&& order.no_duplicates()
        &&& order.len() > 0 && order[0] == start
        &&& forall|x: usize| #[trigger] order.contains(x) <==> reachable(self.edges(), start, x)
    }

    /// Evaluates the causaloids reachable from `start`, each once, and
    /// combines their verdicts by `policy`; nodes that no path reaches take no
    /// part. The first failing causaloid ends the evaluation with its failure.
    pub fn evaluate_from(&self, start: usize, obs: &NumericalValue, policy: AggregationPolicy) -> (r: Result<bool, CausalityError>)
        requires
            self.wf(),
            self.causaloids_wf(),
            obs.wf(),
        ensures
            self.spec_evaluates_from(start, *obs, policy, outcome(r)),
    {
        if !self.graph.contains_node(start) {
            return Err(CausalityError("start index not found".to_string()));
        }
        let order = self.graph.reachable_from(start);
        let ghost members = self.at(order@);
        proof {
            assert(self.is_reach_order(start, order@));
        }
        let mut acc: bool = match policy {
            AggregationPolicy::All => true,
            AggregationPolicy::Any => false,
        };
        let mut k: usize = 0;
        while k < order.len()
            invariant
                self.wf(),
                self.causaloids_wf(),
                obs.wf(),
                members == self.at(order@),
                self.is_reach_order(start, order@),
                k <= order@.len(),
                forall|x: usize| #[trigger] order@.contains(x) ==> self.nodes().contains_key(x),
                aggregate(members.subrange(0, k as int), *obs, policy) == Ok::<bool, Seq<char>>(acc),
            decreases order.len() - k,
        {
            let i = order[k];
            proof {
                assert(order@.contains(order@[k as int]));
            }
            let c = self.graph.get_node(i).unwrap();
            let v = c.verify_single_cause(obs);
            proof {
                assert(members[k as int] == *c);
                assert(members.subrange(0, k + 1).drop_last() =~= members.subrange(0, k as int));
            }
            match v {
                Err(e) => {
                    proof {
                        lemma_aggregate_stops(members, k as int + 1, members.len() as int, *obs, policy);
                        assert(members.subrange(0, members.len() as int) =~= members);
                        assert(self.is_reach_order(start, order@));
                    }
                    return Err(e);
                },
                Ok(b) => {
                    acc = match policy {
                        AggregationPolicy::All => acc && b,
                        AggregationPolicy::Any => acc || b,
                    };
                },
            }
            k = k + 1;
        }
        proof {
            assert(members.subrange(0, k as int) =~= members);
            assert(self.is_reach_order(start, order@));
        }
        Ok(acc)
    }

    pub fn size(&self) -> (r: usize)
        ensures
            r == self.nodes().len(),
    {
        self.graph.number_nodes()
    }

    pub fn number_edges(&self) -> (r: usize)
        ensures
            r == self.edges().len(),
    {
        self.graph.number_edges()
    }
}

} // verus!
