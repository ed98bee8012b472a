//! A switch between two ways of doing the same thing, so that one build can
//! measure both.
use vstd::prelude::*;

verus! {

/// Which leg the gated sites take.
#[derive(Clone, Copy, Debug, PartialEq, Eq, Structural)]
pub struct Gate {
    pub on: bool,
}

/// Pick the leg the gated sites take from here on.
pub fn set(gate: &mut Gate, on: bool)
    ensures
        final(gate).on == on,
{
    gate.on = on;
}

/// Which leg a gated site should take.
pub fn on(gate: &Gate) -> (r: bool)
    ensures
        r == gate.on,
{
    gate.on
}

} // verus!
