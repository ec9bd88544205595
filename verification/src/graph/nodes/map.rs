//! The sink of a graph.

use vstd::prelude::*;

verus! {

/// The sink has one input, `in`, no output and no settings. It computes
/// nothing: the result of a graph is what reaches its input. A sink that is
/// wired to an input of another node has nothing to give to it.
#[derive(Clone, Copy, Debug, PartialEq, Eq, Structural)]
pub struct MapNode {}

} // verus!
