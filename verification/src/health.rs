//! Cycle-local health classification.

use vstd::prelude::*;

verus! {

/// Whether the loop has seen signs of event loss or reordering.
#[derive(Clone, Copy, Debug, PartialEq, Eq, Structural)]
pub enum HealthStatus {
    /// No sequence gaps and no stale events observed so far.
    Healthy,
    /// At least one possible-loss or reordering signal was observed.
    Degraded,
}

} // verus!
