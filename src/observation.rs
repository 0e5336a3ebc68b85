use vstd::prelude::*;

use crate::numeric::NumericalValue;

verus! {

/// A single sample: an observed value and whether the effect was observed.
#[derive(Clone, Copy, Debug, PartialEq, Eq, Structural)]
pub struct Observation {
    pub id: u64,
    pub observation: NumericalValue,
    pub observed_effect: bool,
}

impl Observation {
    pub fn new(id: u64, observation: NumericalValue, observed_effect: bool) -> (r: Observation)
        ensures
            r == (Observation { id, observation, observed_effect }),
    {
        Observation { id, observation, observed_effect }
    }

    /// The observed value crosses the target threshold.
    pub open spec fn spec_crosses(self, target_threshold: NumericalValue) -> bool {
        self.observation.spec_ge(target_threshold)
    }

    pub fn crosses(&self, target_threshold: &NumericalValue) -> (r: bool)
        requires
            self.observation.wf(),
            target_threshold.wf(),
        ensures
            r == self.spec_crosses(*target_threshold),
    {
        self.observation.ge(target_threshold)
    }

    /// The value crosses the threshold and shows the target effect.
    pub open spec fn spec_effect_observed(self, target_threshold: NumericalValue, target_effect: bool) -> bool {
        self.spec_crosses(target_threshold) && self.observed_effect == target_effect
    }

    pub fn effect_observed(&self, target_threshold: &NumericalValue, target_effect: bool) -> (r: bool)
        requires
            self.observation.wf(),
            target_threshold.wf(),
        ensures
            r == self.spec_effect_observed(*target_threshold, target_effect),
    {
        self.crosses(target_threshold) && self.observed_effect == target_effect
    }
}

pub open spec fn all_wf(obs: Seq<Observation>) -> bool {
    forall|i: int| 0 <= i < obs.len() ==> (#[trigger] obs[i]).observation.wf()
}

/// How many observations cross the threshold.
pub open spec fn count_crossing(obs: Seq<Observation>, target_threshold: NumericalValue) -> nat
    decreases obs.len(),
{
    if obs.len() == 0 {
        0
    } else {
        count_crossing(obs.drop_last(), target_threshold) + if obs.last().spec_crosses(
            target_threshold,
        ) {
            1nat
        } else {
            0nat
        }
    }
}

/// How many observations cross the threshold and show the target effect.
pub open spec fn count_effect(obs: Seq<Observation>, target_threshold: NumericalValue, target_effect: bool) -> nat
    decreases obs.len(),
{
    if obs.len() == 0 {
        0
    } else {
        count_effect(obs.drop_last(), target_threshold, target_effect) + if obs.last().spec_effect_observed(
            target_threshold,
            target_effect,
        ) {
            1nat
        } else {
            0nat
        }
    }
}

proof fn lemma_counts_bounded(obs: Seq<Observation>, t: NumericalValue, e: bool)
    ensures
        count_effect(obs, t, e) <= count_crossing(obs, t) <= obs.len(),
    decreases obs.len(),
{
    if obs.len() > 0 {
        lemma_counts_bounded(obs.drop_last(), t, e);
    }
}

/// Counts the observations that cross the threshold, and among them those
/// that show the target effect.
fn tally(observations: &Vec<Observation>, target_threshold: &NumericalValue, target_effect: bool) -> (r: (u64, u64))
    requires
        all_wf(observations@),
        target_threshold.wf(),
    ensures
        r.0 == count_effect(observations@, *target_threshold, target_effect),
        r.1 == count_crossing(observations@, *target_threshold),
{
    let mut matching: u64 = 0;
    let mut crossing: u64 = 0;
    let mut i: usize = 0;
    while i < observations.len()
        invariant
            i <= observations.len(),
            all_wf(observations@),
            target_threshold.wf(),
            matching == count_effect(observations@.subrange(0, i as int), *target_threshold, target_effect),
            crossing == count_crossing(observations@.subrange(0, i as int), *target_threshold),
        decreases observations.len() - i,
    {
        let o = &observations[i];
        proof {
            let next = observations@.subrange(0, i + 1);
            assert(next.drop_last() =~= observations@.subrange(0, i as int));
            assert(next.last() == observations@[i as int]);
            lemma_counts_bounded(next, *target_threshold, target_effect);
        }
        if o.crosses(target_threshold) {
            crossing = crossing + 1;
            if o.observed_effect == target_effect {
                matching = matching + 1;
            }
        }
        i = i + 1;
    }
    assert(observations@.subrange(0, i as int) =~= observations@);
    (matching, crossing)
}

/// Number of observations that cross the threshold and show the target effect.
pub fn number_observation(observations: &Vec<Observation>, target_threshold: &NumericalValue, target_effect: bool) -> (r: u64)
    requires
        all_wf(observations@),
        target_threshold.wf(),
    ensures
        r == count_effect(observations@, *target_threshold, target_effect),
{
    tally(observations, target_threshold, target_effect).0
}

/// The share of the observations crossing the threshold that show the target
/// effect. With no crossing observation the share is `0 / 0`, not a number.
pub open spec fn spec_percent_observation(obs: Seq<Observation>, target_threshold: NumericalValue, target_effect: bool) -> NumericalValue {
    NumericalValue::spec_ratio(
        count_effect(obs, target_threshold, target_effect) as u64,
        count_crossing(obs, target_threshold) as u64,
    )
}

pub fn percent_observation(observations: &Vec<Observation>, target_threshold: &NumericalValue, target_effect: bool) -> (r: NumericalValue)
    requires
        all_wf(observations@),
        target_threshold.wf(),
    ensures
        r == spec_percent_observation(observations@, *target_threshold, target_effect),
        r.wf(),
        count_crossing(observations@, *target_threshold) > 0 ==> r is Finite,
{
    let (matching, crossing) = tally(observations, target_threshold, target_effect);
    NumericalValue::ratio(matching, crossing)
}

} // verus!
