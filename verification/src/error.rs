use vstd::prelude::*;

verus! {

/// The failures that the simulation core can report to its callers.
#[derive(Debug, Clone, Copy, PartialEq, Eq, Structural)]
pub enum McSimError {
    /// A probability model was asked for with parameters outside the
    /// distribution's domain (a non-positive shape, or a success
    /// probability outside `(0, 1]`).
    InvalidDistribution,
}

} // verus!
