use vstd::prelude::*;

use crate::numeric::NumericalValue;

verus! {

/// A deterministic predicate over a sequence of numeric values.
pub trait EvalFn {
    spec fn spec_holds(&self, data: Seq<NumericalValue>) -> bool;

    fn eval(&self, data: &[NumericalValue]) -> (r: bool)
        ensures
            r == self.spec_holds(data@),
    ;
}

/// Holds when there is at least one value.
#[derive(Clone, Copy, Debug, PartialEq, Eq, Structural)]
pub struct HasData;

impl EvalFn for HasData {
    open spec fn spec_holds(&self, data: Seq<NumericalValue>) -> bool {
        data.len() > 0
    }

    fn eval(&self, data: &[NumericalValue]) -> (r: bool) {
        data.len() > 0
    }
}

/// A named precondition that data must meet before a causal function is
/// trusted with it.
#[derive(Clone, Debug)]
pub struct Assumption<F> {
    pub id: u64,
    pub description: String,
    pub assumption_fn: F,
}

impl<F: EvalFn> Assumption<F> {
    pub fn new(id: u64, description: String, assumption_fn: F) -> (r: Self)
        ensures
            r.id == id,
            r.description == description,
            r.assumption_fn == assumption_fn,
    {
        Assumption { id, description, assumption_fn }
    }

    pub fn verify_assumption(&self, data: &[NumericalValue]) -> (r: bool)
        ensures
            r == self.assumption_fn.spec_holds(data@),
    {
        self.assumption_fn.eval(data)
    }
}

} // verus!
