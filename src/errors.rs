use vstd::prelude::*;

verus! {

/// Raised by a causal function on input outside its domain, and by causaloid
/// construction when validation fails.
#[derive(Clone, Debug)]
pub struct CausalityError(pub String);

impl CausalityError {
    pub fn message(&self) -> (r: &str)
        ensures
            r@ == self.0@,
    {
        self.0.as_str()
    }
}

/// Raised by a graph operation that names an index the graph does not hold.
#[derive(Clone, Copy, Debug, PartialEq, Eq, Structural)]
pub enum ContextIndexError {
    /// The node with this index is absent.
    NodeNotFound(usize),
    /// The first endpoint `a` of an edge is absent.
    SourceNotFound(usize),
    /// The second endpoint `b` of an edge is absent.
    TargetNotFound(usize),
    /// Both endpoints exist, but the store refused the edge change.
    EdgeFailure(usize, usize),
}

} // verus!
