use vstd::prelude::*;

use crate::numeric::NumericalValue;

verus! {

/// An observed probability set against an acceptance threshold, together
/// with the expected effect and target of its framing.
#[derive(Clone, Debug)]
pub struct Inference {
    pub id: u64,
    pub question: String,
    pub observation: NumericalValue,
    pub threshold: NumericalValue,
    pub effect: bool,
    pub target: bool,
}

impl Inference {
    pub fn new(
        id: u64,
        question: String,
        observation: NumericalValue,
        threshold: NumericalValue,
        effect: bool,
        target: bool,
    ) -> (r: Inference)
        ensures
            r.id == id,
            r.question == question,
            r.observation == observation,
            r.threshold == threshold,
            r.effect == effect,
            r.target == target,
    {
        Inference { id, question, observation, threshold, effect, target }
    }

    pub open spec fn wf(&self) -> bool {
        self.observation.wf() && self.threshold.wf()
    }

    /// The observed probability reaches the acceptance threshold.
    pub open spec fn spec_is_accepted(&self) -> bool {
        self.observation.spec_ge(self.threshold)
    }

    /// Holds under the positive framing: accepted, with effect and target true.
    pub open spec fn spec_is_inferable(&self) -> bool {
        self.spec_is_accepted() && self.effect && self.target
    }

    /// Holds under the inverse framing: accepted, with effect and target false.
    pub open spec fn spec_is_inverse_inferable(&self) -> bool {
        self.spec_is_accepted() && !self.effect && !self.target
    }

    pub fn is_inferable(&self) -> (r: bool)
        requires
            self.wf(),
        ensures
            r == self.spec_is_inferable(),
    {
        self.observation.ge(&self.threshold) && self.effect && self.target
    }

    pub fn is_inverse_inferable(&self) -> (r: bool)
        requires
            self.wf(),
        ensures
            r == self.spec_is_inverse_inferable(),
    {
        self.observation.ge(&self.threshold) && !self.effect && !self.target
    }
}

pub open spec fn all_inferences_wf(coll: Seq<Inference>) -> bool {
    forall|i: int| 0 <= i < coll.len() ==> (#[trigger] coll[i]).wf()
}

/// Every inference of the collection holds under the positive framing.
pub open spec fn spec_all_inferable(coll: Seq<Inference>) -> bool {
    forall|i: int| 0 <= i < coll.len() ==> (#[trigger] coll[i]).spec_is_inferable()
}

/// Every inference of the collection holds under the inverse framing.
pub open spec fn spec_all_inverse_inferable(coll: Seq<Inference>) -> bool {
    forall|i: int| 0 <= i < coll.len() ==> (#[trigger] coll[i]).spec_is_inverse_inferable()
}

pub fn all_inferable(coll: &Vec<Inference>) -> (r: bool)
    requires
        all_inferences_wf(coll@),
    ensures
        r == spec_all_inferable(coll@),
{
    let mut i: usize = 0;
    while i < coll.len()
        invariant
            i <= coll.len(),
            all_inferences_wf(coll@),
            forall|j: int| 0 <= j < i ==> (#[trigger] coll@[j]).spec_is_inferable(),
        decreases coll.len() - i,
    {
        if !coll[i].is_inferable() {
            return false;
        }
        i = i + 1;
    }
    true
}

pub fn all_inverse_inferable(coll: &Vec<Inference>) -> (r: bool)
    requires
        all_inferences_wf(coll@),
    ensures
        r == spec_all_inverse_inferable(coll@),
{
    let mut i: usize = 0;
    while i < coll.len()
        invariant
            i <= coll.len(),
            all_inferences_wf(coll@),
            forall|j: int| 0 <= j < i ==> (#[trigger] coll@[j]).spec_is_inverse_inferable(),
        decreases coll.len() - i,
    {
        if !coll[i].is_inverse_inferable() {
            return false;
        }
        i = i + 1;
    }
    true
}

} // verus!
