//! Computational causality: contextual graphs of space/time-aware entities,
//! statistical evidence over observations, and causaloids whose causal
//! function is only accepted after that evidence has been validated.

pub mod numeric;
pub mod errors;
pub mod observation;
pub mod inference;
pub mod graph;
pub mod contextoid;
pub mod context;
pub mod text;
pub mod assumption;
pub mod causaloid;
pub mod fixtures;
pub mod causaloid_graph;
