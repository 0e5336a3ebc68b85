use std::collections::HashMap;
use vstd::prelude::*;

verus! {

broadcast use {vstd::std_specs::hash::group_hash_axioms, vstd::seq_lib::lemma_seq_contains_after_push};

/// A stored edge: source index, target index, weight.
pub type Edge = (usize, usize, u64);

/// Some edge of `edges` runs from `a` to `b`.
pub open spec fn has_pair(edges: Seq<Edge>, a: usize, b: usize) -> bool {
    exists|j: int| 0 <= j < edges.len() && (#[trigger] edges[j]).0 == a && edges[j].1 == b
}

/// No two edges of `edges` join the same ordered pair of nodes.
pub open spec fn unique_pairs(edges: Seq<Edge>) -> bool {
    forall|j: int, k: int|
        0 <= j < k < edges.len() ==> !((#[trigger] edges[j]).0 == (#[trigger] edges[k]).0
            && edges[j].1 == edges[k].1)
}

/// `p` is a walk along the edges: non-empty, each step an edge.
pub open spec fn is_path(edges: Seq<Edge>, p: Seq<usize>) -> bool {
    &&& p.len() > 0
    &&& forall|k: int| 0 <= k < p.len() - 1 ==> has_pair(edges, #[trigger] p[k], p[k + 1])
}

/// Some walk along the edges leads from `a` to `b`; every node reaches itself.
pub open spec fn reachable(edges: Seq<Edge>, a: usize, b: usize) -> bool {
    exists|p: Seq<usize>| #[trigger] is_path(edges, p) && p[0] == a && p.last() == b
}

/// A set of nodes that holds `start` and is closed under the edges holds
/// every node reachable from `start`.
pub proof fn lemma_closed_holds_reachable(edges: Seq<Edge>, v: Seq<usize>, start: usize, p: Seq<usize>)
    requires
        v.contains(start),
        forall|x: usize, y: usize| #[trigger] v.contains(x) && #[trigger] has_pair(edges, x, y) ==> v.contains(y),
        is_path(edges, p),
        p[0] == start,
    ensures
        v.contains(p.last()),
    decreases p.len(),
{
    if p.len() > 1 {
        let q = p.drop_last();
        assert forall|k: int| 0 <= k < q.len() - 1 implies has_pair(edges, #[trigger] q[k], q[k + 1]) by {
            assert(has_pair(edges, p[k], p[k + 1]));
        }
        lemma_closed_holds_reachable(edges, v, start, q);
        assert(has_pair(edges, p[p.len() - 2], p[p.len() - 1]));
    }
}

/// A walk to `x` followed by an edge from `x` to `y` is a walk to `y`.
proof fn lemma_path_extend(edges: Seq<Edge>, start: usize, x: usize, y: usize)
    requires
        reachable(edges, start, x),
        has_pair(edges, x, y),
    ensures
        reachable(edges, start, y),
{
    let p = choose|p: Seq<usize>| #[trigger] is_path(edges, p) && p[0] == start && p.last() == x;
    let q = p.push(y);
    assert forall|k: int| 0 <= k < q.len() - 1 implies has_pair(edges, #[trigger] q[k], q[k + 1]) by {
        if k < p.len() - 1 {
            assert(has_pair(edges, p[k], p[k + 1]));
        }
    }
    assert(is_path(edges, q));
}

/// Why the store refused a change.
#[derive(Clone, Copy, Debug, PartialEq, Eq, Structural)]
pub enum GraphError {
    NodeNotFound(usize),
    EdgeExists(usize, usize),
    EdgeNotFound(usize, usize),
}

/// An index-addressed directed graph with weighted edges.
///
/// Each inserted node gets the next unused index; an index is never given out
/// again, also after its node was removed. Removing a node removes the edges
/// that touch it.
#[derive(Debug)]
pub struct Graph<N> {
    nodes: HashMap<usize, N>,
    edges: Vec<Edge>,
    next_index: usize,
}

impl<N> Graph<N> {
    /// The nodes, by index.
    pub closed spec fn nodes_view(&self) -> Map<usize, N> {
        self.nodes@
    }

    /// The edges, in the order they were added.
    pub closed spec fn edges_view(&self) -> Seq<Edge> {
        self.edges@
    }

    /// The index the next inserted node will get.
    pub closed spec fn next_index_view(&self) -> nat {
        self.next_index as nat
    }

    pub open spec fn spec_has_edge(&self, a: usize, b: usize) -> bool {
        has_pair(self.edges_view(), a, b)
    }

    pub closed spec fn wf(&self) -> bool {
        &&& forall|i: usize| #[trigger] self.nodes@.contains_key(i) ==> i < self.next_index
        &&& forall|j: int|
            0 <= j < self.edges@.len() ==> self.nodes@.contains_key((#[trigger] self.edges@[j]).0)
                && self.nodes@.contains_key(self.edges@[j].1)
        &&& unique_pairs(self.edges@)
    }

    pub proof fn lemma_wf_facts(&self)
        requires
            self.wf(),
        ensures
            forall|i: usize| #[trigger]
                self.nodes_view().contains_key(i) ==> i < self.next_index_view(),
            forall|a: usize, b: usize|
                #[trigger] self.spec_has_edge(a, b) ==> self.nodes_view().contains_key(a)
                    && self.nodes_view().contains_key(b),
            unique_pairs(self.edges_view()),
            self.nodes_view().dom().finite(),
    {
    }

    pub fn new() -> (r: Graph<N>)
        ensures
            r.wf(),
            r.nodes_view() == Map::<usize, N>::empty(),
            r.edges_view() == Seq::<Edge>::empty(),
            r.next_index_view() == 0,
    {
        Graph { nodes: HashMap::new(), edges: Vec::new(), next_index: 0 }
    }

    /// Inserts a node under a fresh index and returns that index.
    pub fn add_node(&mut self, value: N) -> (r: usize)
        requires
            old(self).wf(),
            old(self).next_index_view() < usize::MAX,
        ensures
            final(self).wf(),
            r == old(self).next_index_view(),
            !old(self).nodes_view().contains_key(r),
            final(self).nodes_view() == old(self).nodes_view().insert(r, value),
            final(self).edges_view() == old(self).edges_view(),
            final(self).next_index_view() == old(self).next_index_view() + 1,
    {
        let index = self.next_index;
        self.nodes.insert(index, value);
        self.next_index = index + 1;
        index
    }

    pub fn contains_node(&self, index: usize) -> (r: bool)
        ensures
            r == self.nodes_view().contains_key(index),
    {
        self.nodes.contains_key(&index)
    }

    pub fn get_node(&self, index: usize) -> (r: Option<&N>)
        ensures
            match r {
                Some(v) => self.nodes_view().contains_key(index) && *v == self.nodes_view()[index],
                None => !self.nodes_view().contains_key(index),
            },
    {
        self.nodes.get(&index)
    }

    /// The index the next inserted node will get; every node lies below it.
    pub fn index_bound(&self) -> (r: usize)
        ensures
            r == self.next_index_view(),
    {
        self.next_index
    }

    pub fn number_nodes(&self) -> (r: usize)
        ensures
            r == self.nodes_view().len(),
    {
        self.nodes.len()
    }

    pub fn number_edges(&self) -> (r: usize)
        ensures
            r == self.edges_view().len(),
    {
        self.edges.len()
    }

    pub fn is_empty(&self) -> (r: bool)
        ensures
            r == (self.nodes_view().len() == 0),
    {
        self.nodes.len() == 0
    }

    /// The position of the edge from `a` to `b`, if there is one.
    fn find_edge(&self, a: usize, b: usize) -> (r: Option<usize>)
        ensures
            match r {
                Some(j) => j < self.edges@.len() && self.edges@[j as int].0 == a
                    && self.edges@[j as int].1 == b,
                None => !has_pair(self.edges@, a, b),
            },
    {
        let mut j: usize = 0;
        while j < self.edges.len()
            invariant
                j <= self.edges@.len(),
                forall|k: int| 0 <= k < j ==> !((#[trigger] self.edges@[k]).0 == a && self.edges@[k].1 == b),
            decreases self.edges.len() - j,
        {
            if self.edges[j].0 == a && self.edges[j].1 == b {
                return Some(j);
            }
            j = j + 1;
        }
        None
    }

    pub fn contains_edge(&self, a: usize, b: usize) -> (r: bool)
        ensures
            r == self.spec_has_edge(a, b),
    {
        self.find_edge(a, b).is_some()
    }

    /// Adds an edge from `a` to `b`; fails when an endpoint is absent or the
    /// edge is already there.
    pub fn add_edge_with_weight(&mut self, a: usize, b: usize, weight: u64) -> (r: Result<(), GraphError>)
        requires
            old(self).wf(),
        ensures
            final(self).wf(),
            final(self).nodes_view() == old(self).nodes_view(),
            final(self).next_index_view() == old(self).next_index_view(),
            r == (if !old(self).nodes_view().contains_key(a) {
                Err::<(), GraphError>(GraphError::NodeNotFound(a))
            } else if !old(self).nodes_view().contains_key(b) {
                Err(GraphError::NodeNotFound(b))
            } else if old(self).spec_has_edge(a, b) {
                Err(GraphError::EdgeExists(a, b))
            } else {
                Ok(())
            }),
            r is Ok ==> final(self).edges_view() == old(self).edges_view().push((a, b, weight)),
            r is Err ==> final(self).edges_view() == old(self).edges_view(),
    {
        if !self.nodes.contains_key(&a) {
            return Err(GraphError::NodeNotFound(a));
        }
        if !self.nodes.contains_key(&b) {
            return Err(GraphError::NodeNotFound(b));
        }
        if self.find_edge(a, b).is_some() {
            return Err(GraphError::EdgeExists(a, b));
        }
        self.edges.push((a, b, weight));
        proof {
            assert forall|j: int, k: int|
                0 <= j < k < self.edges@.len() implies !((#[trigger] self.edges@[j]).0
                == (#[trigger] self.edges@[k]).0 && self.edges@[j].1 == self.edges@[k].1) by {
                if k == self.edges@.len() - 1 {
                    assert(old(self).edges@[j] == self.edges@[j]);
                }
            }
        }
        Ok(())
    }

    /// Removes the edge from `a` to `b`; fails when it is absent.
    pub fn remove_edge(&mut self, a: usize, b: usize) -> (r: Result<(), GraphError>)
        requires
            old(self).wf(),
        ensures
            final(self).wf(),
            final(self).nodes_view() == old(self).nodes_view(),
            final(self).next_index_view() == old(self).next_index_view(),
            r == (if old(self).spec_has_edge(a, b) {
                Ok::<(), GraphError>(())
            } else {
                Err(GraphError::EdgeNotFound(a, b))
            }),
            forall|x: usize, y: usize|
                #[trigger] final(self).spec_has_edge(x, y) == (old(self).spec_has_edge(x, y) && !(x
                    == a && y == b)),
            r is Ok ==> final(self).edges_view().len() + 1 == old(self).edges_view().len(),
            r is Err ==> final(self).edges_view() == old(self).edges_view(),
    {
        match self.find_edge(a, b) {
            None => Err(GraphError::EdgeNotFound(a, b)),
            Some(j) => {
                let ghost before = self.edges@;
                self.edges.remove(j);
                proof {
                    let after = self.edges@;
                    assert(after =~= before.remove(j as int));
                    assert forall|x: usize, y: usize|
                        #[trigger] has_pair(after, x, y) == (has_pair(before, x, y) && !(x == a
                            && y == b)) by {
                        if has_pair(after, x, y) {
                            let k = choose|k: int| 0 <= k < after.len() && (#[trigger] after[k]).0 == x && after[k].1 == y;
                            if k < j {
                                assert(before[k] == after[k]);
                            } else {
                                assert(before[k + 1] == after[k]);
                            }
                        }
                        if has_pair(before, x, y) && !(x == a && y == b) {
                            let k = choose|k: int| 0 <= k < before.len() && (#[trigger] before[k]).0 == x && before[k].1 == y;
                            if k < j {
                                assert(after[k] == before[k]);
                            } else {
                                assert(after[k - 1] == before[k]);
                            }
                        }
                    }
                }
                Ok(())
            },
        }
    }

    fn seq_contains(v: &Vec<usize>, x: usize) -> (r: bool)
        ensures
            r == v@.contains(x),
    {
        let mut i: usize = 0;
        while i < v.len()
            invariant
                i <= v@.len(),
                forall|k: int| 0 <= k < i ==> v@[k] != x,
            decreases v.len() - i,
        {
            if v[i] == x {
                return true;
            }
            i = i + 1;
        }
        false
    }

    /// The nodes reachable from `start`, each once, `start` first.
    pub fn reachable_from(&self, start: usize) -> (r: Vec<usize>)
        requires
            self.wf(),
            self.nodes_view().contains_key(start),
        ensures
            r@.no_duplicates(),
            r@.len() > 0 && r@[0] == start,
            forall|x: usize| #[trigger] r@.contains(x) <==> reachable(self.edges_view(), start, x),
            forall|x: usize| #[trigger] r@.contains(x) ==> self.nodes_view().contains_key(x),
    {
        let ghost edges = self.edges@;
        let mut visited: Vec<usize> = Vec::new();
        visited.push(start);
        let mut work: Vec<usize> = Vec::new();
        work.push(start);
        proof {
            let p = seq![start];
            assert(is_path(edges, p));
        }
        while work.len() > 0
            invariant
                self.wf(),
                edges == self.edges@,
                visited@.no_duplicates(),
                visited@.len() > 0 && visited@[0] == start,
                forall|x: usize| #[trigger] visited@.contains(x) ==> self.nodes@.contains_key(x) && reachable(edges, start, x),
                forall|k: int| 0 <= k < work@.len() ==> visited@.contains(#[trigger] work@[k]),
                forall|x: usize, y: usize|
                    #[trigger] visited@.contains(x) && #[trigger] has_pair(edges, x, y) && !work@.contains(x)
                        ==> visited@.contains(y),
            decreases 2 * (self.nodes@.dom().len() - visited@.len()) + work@.len(),
        {
            proof {
                self.lemma_visited_bounded(visited@);
            }
            let ghost queued = work@;
            let x = work.pop().unwrap();
            let ghost visited_before = visited@.len();
            let ghost work_rest = work@;
            proof {
                assert(queued =~= work_rest.push(x));
                assert(visited@.contains(x)) by {
                    assert(queued[queued.len() - 1] == x);
                }
                assert forall|z: usize, y: usize|
                    #[trigger] visited@.contains(z) && #[trigger] has_pair(edges, z, y) && !work@.contains(z) && z != x
                    implies visited@.contains(y) by {
                    assert(!queued.contains(z));
                }
            }
            let mut j: usize = 0;
            while j < self.edges.len()
                invariant
                    self.wf(),
                    edges == self.edges@,
                    j <= edges.len(),
                    visited@.contains(x),
                    visited@.len() >= visited_before,
                    visited@.no_duplicates(),
                    visited@.len() > 0 && visited@[0] == start,
                    forall|z: usize| #[trigger] visited@.contains(z) ==> self.nodes@.contains_key(z) && reachable(edges, start, z),
                    forall|k: int| 0 <= k < work@.len() ==> visited@.contains(#[trigger] work@[k]),
                    work@.len() - work_rest.len() == visited@.len() - visited_before,
                    forall|z: usize, y: usize|
                        #[trigger] visited@.contains(z) && #[trigger] has_pair(edges, z, y) && !work@.contains(z) && z != x
                            ==> visited@.contains(y),
                    forall|k: int| 0 <= k < j && (#[trigger] edges[k]).0 == x ==> visited@.contains(edges[k].1),
                decreases edges.len() - j,
            {
                let e = self.edges[j];
                if e.0 == x && !Self::seq_contains(&visited, e.1) {
                    proof {
                        assert(has_pair(edges, x, e.1));
                        lemma_path_extend(edges, start, x, e.1);
                    }
                    let ghost old_visited = visited@;
                    let ghost old_work = work@;
                    visited.push(e.1);
                    work.push(e.1);
                    proof {
                        assert forall|k: int| 0 <= k < work@.len() implies visited@.contains(#[trigger] work@[k]) by {
                            if k < old_work.len() {
                                assert(work@[k] == old_work[k]);
                                assert(old_visited.contains(old_work[k]));
                            }
                        }
                        assert forall|z: usize, y: usize|
                            #[trigger] visited@.contains(z) && #[trigger] has_pair(edges, z, y) && !work@.contains(z) && z != x
                            implies visited@.contains(y) by {
                            assert(work@ == old_work.push(e.1));
                            assert(old_visited.contains(z));
                            assert(!old_work.contains(z));
                        }
                        assert forall|k: int| 0 <= k <= j && (#[trigger] edges[k]).0 == x implies visited@.contains(edges[k].1) by {
                            if k < j {
                                assert(old_visited.contains(edges[k].1));
                            }
                        }
                        assert(visited@.no_duplicates()) by {
                            assert forall|a: int, b: int| 0 <= a < visited@.len() && 0 <= b < visited@.len() && a != b
                                implies visited@[a] != visited@[b] by {
                                if a == old_visited.len() as int {
                                    assert(visited@[b] == old_visited[b]);
                                    assert(old_visited.contains(old_visited[b]));
                                } else if b == old_visited.len() as int {
                                    assert(visited@[a] == old_visited[a]);
                                    assert(old_visited.contains(old_visited[a]));
                                }
                            }
                        }
                    }
                }
                j = j + 1;
            }
            proof {
                assert forall|z: usize, y: usize|
                    #[trigger] visited@.contains(z) && #[trigger] has_pair(edges, z, y) && !work@.contains(z)
                    implies visited@.contains(y) by {
                    if z == x {
                        let k = choose|k: int| 0 <= k < edges.len() && (#[trigger] edges[k]).0 == z && edges[k].1 == y;
                    }
                }
                assert(visited_before <= self.nodes@.dom().len());
                self.lemma_visited_bounded(visited@);
            }
        }
        proof {
            assert forall|x: usize| #[trigger] visited@.contains(x) <==> reachable(edges, start, x) by {
                if reachable(edges, start, x) {
                    let p = choose|p: Seq<usize>| #[trigger] is_path(edges, p) && p[0] == start && p.last() == x;
                    lemma_closed_holds_reachable(edges, visited@, start, p);
                }
            }
        }
        visited
    }

    proof fn lemma_visited_bounded(&self, v: Seq<usize>)
        requires
            v.no_duplicates(),
            forall|x: usize| #[trigger] v.contains(x) ==> self.nodes@.contains_key(x),
        ensures
            v.len() <= self.nodes@.dom().len(),
    {
        v.unique_seq_to_set();
        assert(v.to_set().subset_of(self.nodes@.dom()));
        vstd::set_lib::lemma_len_subset(v.to_set(), self.nodes@.dom());
    }

    /// Removes a node and every edge that touches it; fails when it is absent.
    pub fn remove_node(&mut self, index: usize) -> (r: Result<(), GraphError>)
        requires
            old(self).wf(),
        ensures
            final(self).wf(),
            final(self).next_index_view() == old(self).next_index_view(),
            r == (if old(self).nodes_view().contains_key(index) {
                Ok::<(), GraphError>(())
            } else {
                Err(GraphError::NodeNotFound(index))
            }),
            r is Ok ==> final(self).nodes_view() == old(self).nodes_view().remove(index),
            r is Err ==> final(self).nodes_view() == old(self).nodes_view(),
            r is Err ==> final(self).edges_view() == old(self).edges_view(),
            forall|x: usize, y: usize|
                #[trigger] final(self).spec_has_edge(x, y) == (old(self).spec_has_edge(x, y) && (r is Err || (x
                    != index && y != index))),
    {
        if !self.nodes.contains_key(&index) {
            return Err(GraphError::NodeNotFound(index));
        }
        self.nodes.remove(&index);
        let mut kept: Vec<Edge> = Vec::new();
        let mut j: usize = 0;
        while j < self.edges.len()
            invariant
                j <= self.edges@.len(),
                self.edges@ == old(self).edges@,
                old(self).wf(),
                self.nodes@ == old(self).nodes@.remove(index),
                unique_pairs(kept@),
                forall|k: int| 0 <= k < kept@.len() ==> (#[trigger] kept@[k]).0 != index && kept@[k].1 != index
                    && self.nodes@.contains_key(kept@[k].0) && self.nodes@.contains_key(kept@[k].1),
                forall|x: usize, y: usize|
                    #[trigger] has_pair(kept@, x, y) == (has_pair(self.edges@.subrange(0, j as int), x, y)
                        && x != index && y != index),
            decreases self.edges.len() - j,
        {
            let e = self.edges[j];
            let ghost prefix = self.edges@.subrange(0, j as int);
            let ghost next = self.edges@.subrange(0, j + 1);
            let ghost before = kept@;
            proof {
                assert(next =~= prefix.push(e));
                lemma_has_pair_push(prefix, e);
            }
            if e.0 != index && e.1 != index {
                proof {
                    if has_pair(before, e.0, e.1) {
                        let k = choose|k: int| 0 <= k < prefix.len() && (#[trigger] prefix[k]).0 == e.0 && prefix[k].1 == e.1;
                        assert(self.edges@[k] == prefix[k]);
                        assert(self.edges@[j as int] == e);
                    }
                }
                kept.push(e);
                proof {
                    lemma_has_pair_push(before, e);
                    assert forall|k1: int, k2: int|
                        0 <= k1 < k2 < kept@.len() implies !((#[trigger] kept@[k1]).0
                        == (#[trigger] kept@[k2]).0 && kept@[k1].1 == kept@[k2].1) by {
                        if k2 == kept@.len() - 1 {
                            assert(kept@[k1] == before[k1]);
                            assert(has_pair(before, kept@[k1].0, kept@[k1].1));
                        } else {
                            assert(kept@[k1] == before[k1]);
                            assert(kept@[k2] == before[k2]);
                        }
                    }
                    assert forall|k: int| 0 <= k < kept@.len() implies (#[trigger] kept@[k]).0 != index
                        && kept@[k].1 != index && self.nodes@.contains_key(kept@[k].0)
                        && self.nodes@.contains_key(kept@[k].1) by {
                        if k < before.len() {
                            assert(kept@[k] == before[k]);
                        }
                    }
                }
            }
            j = j + 1;
        }
        assert(self.edges@.subrange(0, j as int) =~= self.edges@);
        self.edges = kept;
        Ok(())
    }
}

/// What `has_pair` says of a sequence after one more edge.
pub proof fn lemma_has_pair_push(s: Seq<Edge>, e: Edge)
    ensures
        forall|x: usize, y: usize|
            #[trigger] has_pair(s.push(e), x, y) == (has_pair(s, x, y) || (e.0 == x && e.1 == y)),
{
    assert forall|x: usize, y: usize|
        #[trigger] has_pair(s.push(e), x, y) == (has_pair(s, x, y) || (e.0 == x && e.1 == y)) by {
        let t = s.push(e);
        if has_pair(s, x, y) {
            let k = choose|k: int| 0 <= k < s.len() && (#[trigger] s[k]).0 == x && s[k].1 == y;
            assert(t[k] == s[k]);
        }
        if e.0 == x && e.1 == y {
            assert(t[s.len() as int] == e);
        }
        if has_pair(t, x, y) {
            let k = choose|k: int| 0 <= k < t.len() && (#[trigger] t[k]).0 == x && t[k].1 == y;
            if k < s.len() {
                assert(s[k] == t[k]);
            }
        }
    }
}

} // verus!
