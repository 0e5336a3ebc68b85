use vstd::prelude::*;

use crate::causaloid_graph::CausaloidGraph;
use crate::errors::CausalityError;
use crate::inference::{
    all_inferable, all_inferences_wf, all_inverse_inferable, spec_all_inferable,
    spec_all_inverse_inferable, Inference,
};
use crate::numeric::NumericalValue;

verus! {

/// What a causal function gives back, with an error read as its message.
pub open spec fn outcome(r: Result<bool, CausalityError>) -> Result<bool, Seq<char>> {
    match r {
        Ok(b) => Ok(b),
        Err(e) => Err(e.0@),
    }
}

/// A causal function: from one numeric observation to a verdict or a failure.
pub trait CausalFn {
    spec fn wf(&self) -> bool;

    spec fn spec_verdict(&self, obs: NumericalValue) -> Result<bool, Seq<char>>;

    fn is_wf(&self) -> (r: bool)
        ensures
            r == self.wf(),
    ;

    fn eval(&self, obs: &NumericalValue) -> (r: Result<bool, CausalityError>)
        requires
            self.wf(),
            obs.wf(),
        ensures
            outcome(r) == self.spec_verdict(*obs),
    ;
}

/// The canonical causal function: rejects no-number, infinite and negative
/// input, in that order, and otherwise tells whether the input reaches the
/// threshold.
#[derive(Clone, Copy, Debug, PartialEq, Eq, Structural)]
pub struct ThresholdFn {
    pub threshold: NumericalValue,
}

impl CausalFn for ThresholdFn {
    open spec fn wf(&self) -> bool {
        self.threshold.wf()
    }

    open spec fn spec_verdict(&self, obs: NumericalValue) -> Result<bool, Seq<char>> {
        if obs.spec_is_nan() {
            Err("Observation is NULL/NAN"@)
        } else if obs.spec_is_infinite() {
            Err("Observation is infinite"@)
        } else if obs.spec_is_sign_negative() {
            Err("Observation is negative"@)
        } else {
            Ok(obs.spec_ge(self.threshold))
        }
    }

    fn is_wf(&self) -> (r: bool) {
        match self.threshold {
            NumericalValue::Finite { denominator, .. } => denominator > 0,
            _ => true,
        }
    }

    fn eval(&self, obs: &NumericalValue) -> (r: Result<bool, CausalityError>) {
        if obs.is_nan() {
            return Err(CausalityError("Observation is NULL/NAN".to_string()));
        }
        if obs.is_infinite() {
            return Err(CausalityError("Observation is infinite".to_string()));
        }
        if obs.is_sign_negative() {
            return Err(CausalityError("Observation is negative".to_string()));
        }
        Ok(obs.ge(&self.threshold))
    }
}

/// A single causaloid with a well-formed causal function.
pub open spec fn is_wf_single<F: CausalFn>(c: Causaloid<F>) -> bool {
    match c.spec_kind() {
        CausaloidKind::Singleton(f) => f.wf(),
        _ => false,
    }
}

/// How the verdicts of a collection's members are combined.
#[derive(Clone, Copy, Debug, PartialEq, Eq, Structural)]
pub enum AggregationPolicy {
    /// Every member must hold.
    All,
    /// At least one member must hold.
    Any,
}

/// What a causaloid reasons with: its own causal function, a flat
/// collection of single causaloids, or a graph of single causaloids that is
/// walked from a start index.
#[derive(Debug)]
pub enum CausaloidKind<F> {
    Singleton(F),
    Collection(Vec<Causaloid<F>>),
    SubGraph { graph: CausaloidGraph<F>, start: usize },
}

/// A reasoning unit.
#[derive(Debug)]
///
/// Only its activation flag changes after construction.
pub struct Causaloid<F> {
    id: u64,
    description: String,
    data_set_id: String,
    active: bool,
    kind: CausaloidKind<F>,
}

impl<F> Causaloid<F> {
    pub closed spec fn spec_id(&self) -> u64 {
        self.id
    }

    pub closed spec fn spec_description(&self) -> Seq<char> {
        self.description@
    }

    pub closed spec fn spec_data_set_id(&self) -> Seq<char> {
        self.data_set_id@
    }

    pub closed spec fn spec_active(&self) -> bool {
        self.active
    }

    pub closed spec fn spec_kind(&self) -> CausaloidKind<F> {
        self.kind
    }

    pub fn id(&self) -> (r: u64)
        ensures
            r == self.spec_id(),
    {
        self.id
    }

    pub fn description(&self) -> (r: &str)
        ensures
            r@ == self.spec_description(),
    {
        self.description.as_str()
    }

    pub fn data_set_id(&self) -> (r: &str)
        ensures
            r@ == self.spec_data_set_id(),
    {
        self.data_set_id.as_str()
    }

    pub fn is_active(&self) -> (r: bool)
        ensures
            r == self.spec_active(),
    {
        self.active
    }

    pub fn kind(&self) -> (r: &CausaloidKind<F>)
        ensures
            *r == self.spec_kind(),
    {
        &self.kind
    }

    /// Switches the causaloid on or off; nothing else changes.
    pub fn set_active(&mut self, active: bool)
        ensures
            final(self).spec_active() == active,
            final(self).spec_id() == old(self).spec_id(),
            final(self).spec_description() == old(self).spec_description(),
            final(self).spec_data_set_id() == old(self).spec_data_set_id(),
            final(self).spec_kind() == old(self).spec_kind(),
    {
        self.active = active;
    }
}

impl<F: CausalFn> Causaloid<F> {
    /// A single causaloid holds a well-formed causal function; a collection
    /// or a sub-graph holds only single causaloids.
    pub open spec fn wf(&self) -> bool {
        match self.spec_kind() {
            CausaloidKind::Singleton(f) => f.wf(),
            CausaloidKind::Collection(members) => forall|i: int|
                0 <= i < members@.len() ==> is_wf_single(#[trigger] members@[i]),
            CausaloidKind::SubGraph { graph, .. } => graph.wf() && graph.singles_wf(),
        }
    }

    pub open spec fn spec_verdict(&self, obs: NumericalValue) -> Result<bool, Seq<char>>
        recommends
            self.spec_kind() is Singleton,
    {
        match self.spec_kind() {
            CausaloidKind::Singleton(f) => f.spec_verdict(obs),
            _ => Err("Causaloid is not a singleton"@),
        }
    }

    pub fn is_singleton(&self) -> (r: bool)
        ensures
            r == self.spec_kind() is Singleton,
    {
        matches!(self.kind, CausaloidKind::Singleton(_))
    }

    /// Evaluates a single causaloid's causal function on one observation.
    pub fn verify_single_cause(&self, obs: &NumericalValue) -> (r: Result<bool, CausalityError>)
        requires
            self.wf(),
            obs.wf(),
        ensures
            outcome(r) == self.spec_verdict(*obs),
    {
        match &self.kind {
            CausaloidKind::Singleton(f) => f.eval(obs),
            _ => Err(CausalityError("Causaloid is not a singleton".to_string())),
        }
    }

    /// Evaluates the causaloid: a single one by its causal function; a
    /// collection by every member on the observation, in order; a sub-graph
    /// by the causaloids reachable from its start. Member verdicts are
    /// combined by `policy`; the first member that fails ends the evaluation
    /// with its failure.
    pub fn verify_collection(&self, obs: &NumericalValue, policy: AggregationPolicy) -> (r: Result<bool, CausalityError>)
        requires
            self.wf(),
            obs.wf(),
        ensures
            self.spec_evaluates_to(*obs, policy, outcome(r)),
    {
        match &self.kind {
            CausaloidKind::Singleton(f) => f.eval(obs),
            CausaloidKind::SubGraph { graph, start } => {
                proof {
                    graph.lemma_singles_wf();
                }
                graph.evaluate_from(*start, obs, policy)
            },
            CausaloidKind::Collection(members) => {
                assert(self.spec_kind() == CausaloidKind::Collection(*members));
                let mut i: usize = 0;
                let mut acc: bool = match policy {
                    AggregationPolicy::All => true,
                    AggregationPolicy::Any => false,
                };
                while i < members.len()
                    invariant
                        self.wf(),
                        obs.wf(),
                        self.kind == CausaloidKind::Collection(*members),
                        forall|j: int| 0 <= j < members@.len() ==> is_wf_single(#[trigger] members@[j]),
                        i <= members@.len(),
                        aggregate(members@.subrange(0, i as int), *obs, policy) == Ok::<bool, Seq<char>>(acc),
                    decreases members.len() - i,
                {
                    let ghost prefix = members@.subrange(0, i as int);
                    proof {
                        assert(is_wf_single(members@[i as int]));
                    }
                    let v = members[i].verify_single_cause(obs);
                    proof {
                        assert(members@.subrange(0, i + 1).drop_last() =~= prefix);
                    }
                    match v {
                        Err(e) => {
                            proof {
                                lemma_aggregate_stops(members@, i as int + 1, members@.len() as int, *obs, policy);
                                assert(members@.subrange(0, members@.len() as int) =~= members@);
                            }
                            return Err(e);
                        },
                        Ok(b) => {
                            acc = match policy {
                                AggregationPolicy::All => acc && b,
                                AggregationPolicy::Any => acc || b,
                            };
                        },
                    }
                    i = i + 1;
                }
                assert(members@.subrange(0, i as int) =~= members@);
                Ok(acc)
            },
        }
    }

    /// `v` is what evaluating the causaloid may give: its causal function's
    /// verdict, its members' verdicts combined by `policy`, or what its
    /// sub-graph may give from its start.
    pub open spec fn spec_evaluates_to(&self, obs: NumericalValue, policy: AggregationPolicy, v: Result<bool, Seq<char>>) -> bool {
        match self.spec_kind() {
            CausaloidKind::Singleton(f) => v == f.spec_verdict(obs),
            CausaloidKind::Collection(members) => v == aggregate(members@, obs, policy),
            CausaloidKind::SubGraph { graph, start } => graph.spec_evaluates_from(start, obs, policy, v),
        }
    }
}

/// The members' verdicts combined in order: the first failure, if any, else
/// the conjunction (`All`) or disjunction (`Any`) of the verdicts.
pub open spec fn aggregate<F: CausalFn>(members: Seq<Causaloid<F>>, obs: NumericalValue, policy: AggregationPolicy) -> Result<bool, Seq<char>>
    decreases members.len(),
{
    if members.len() == 0 {
        Ok(policy is All)
    } else {
        match aggregate(members.drop_last(), obs, policy) {
            Err(m) => Err(m),
            Ok(acc) => match members.last().spec_verdict(obs) {
                Err(m) => Err(m),
                Ok(b) => Ok(
                    if policy is All {
                        acc && b
                    } else {
                        acc || b
                    },
                ),
            },
        }
    }
}

/// Once a prefix fails, every longer prefix fails the same way.
pub proof fn lemma_aggregate_stops<F: CausalFn>(members: Seq<Causaloid<F>>, i: int, j: int, obs: NumericalValue, policy: AggregationPolicy)
    requires
        0 <= i <= j <= members.len(),
        aggregate(members.subrange(0, i), obs, policy) is Err,
    ensures
        aggregate(members.subrange(0, j), obs, policy) == aggregate(members.subrange(0, i), obs, policy),
    decreases j - i,
{
    if j > i {
        lemma_aggregate_stops(members, i, j - 1, obs, policy);
        assert(members.subrange(0, j).drop_last() =~= members.subrange(0, j - 1));
    }
}

/// Whether the evidence admits a causal function: every inference holds under
/// the positive framing, and every inverse inference under the inverse one.
pub open spec fn spec_validated(inferable_coll: Seq<Inference>, inverse_inferable_coll: Seq<Inference>) -> bool {
    spec_all_inferable(inferable_coll) && spec_all_inverse_inferable(inverse_inferable_coll)
}

/// Builds a single causaloid once its evidence is validated; fails otherwise.
pub fn build_causaloid<F: CausalFn>(
    id: u64,
    causal_fn: F,
    description: String,
    data_set_id: String,
    inferable_coll: &Vec<Inference>,
    inverse_inferable_coll: &Vec<Inference>,
) -> (r: Result<Causaloid<F>, CausalityError>)
    requires
        causal_fn.wf(),
        all_inferences_wf(inferable_coll@),
        all_inferences_wf(inverse_inferable_coll@),
    ensures
        r is Ok <==> spec_validated(inferable_coll@, inverse_inferable_coll@),
        r matches Ok(c) ==> c.wf() && c.spec_id() == id && c.spec_description() == description@
            && c.spec_data_set_id() == data_set_id@ && c.spec_active() && c.spec_kind()
            == CausaloidKind::Singleton(causal_fn),
{
    if !all_inferable(inferable_coll) {
        return Err(CausalityError("Inference does not hold under the positive framing".to_string()));
    }
    if !all_inverse_inferable(inverse_inferable_coll) {
        return Err(CausalityError("Inference does not hold under the inverse framing".to_string()));
    }
    Ok(Causaloid { id, description, data_set_id, active: true, kind: CausaloidKind::Singleton(causal_fn) })
}

/// Builds a causaloid from a flat collection of single causaloids.
pub fn build_causaloid_collection<F: CausalFn>(
    id: u64,
    members: Vec<Causaloid<F>>,
    description: String,
) -> (r: Result<Causaloid<F>, CausalityError>)
    ensures
        r is Ok <==> forall|i: int| 0 <= i < members@.len() ==> is_wf_single(#[trigger] members@[i]),
        r matches Ok(c) ==> c.wf() && c.spec_id() == id && c.spec_description() == description@
            && c.spec_active() && c.spec_kind() == CausaloidKind::Collection(members),
{
    let mut i: usize = 0;
    while i < members.len()
        invariant
            i <= members@.len(),
            forall|j: int| 0 <= j < i ==> is_wf_single(#[trigger] members@[j]),
        decreases members.len() - i,
    {
        match &members[i].kind {
            CausaloidKind::Singleton(f) => {
                if !f.is_wf() {
                    return Err(CausalityError("A member's causal function is malformed".to_string()));
                }
            },
            _ => {
                return Err(CausalityError("A collection holds single causaloids only".to_string()));
            },
        }
        i = i + 1;
    }
    Ok(Causaloid {
        id,
        description,
        data_set_id: String::new(),
        active: true,
        kind: CausaloidKind::Collection(members),
    })
}

/// Builds a causaloid that reasons over a graph of single causaloids,
/// walked from `start`.
pub fn build_causaloid_graph<F: CausalFn>(
    id: u64,
    graph: CausaloidGraph<F>,
    start: usize,
    description: String,
) -> (r: Result<Causaloid<F>, CausalityError>)
    requires
        graph.wf(),
    ensures
        r is Ok <==> graph.singles_wf(),
        r matches Ok(c) ==> c.wf() && c.spec_id() == id && c.spec_description() == description@
            && c.spec_active() && c.spec_kind() == (CausaloidKind::SubGraph { graph, start }),
{
    if !graph.all_singles() {
        return Err(CausalityError("A causaloid graph holds single causaloids only".to_string()));
    }
    Ok(Causaloid {
        id,
        description,
        data_set_id: String::new(),
        active: true,
        kind: CausaloidKind::SubGraph { graph, start },
    })
}

} // verus!
