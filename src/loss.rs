//! The losses a trainer can score predictions with.

use vstd::prelude::*;

verus! {

/// Loss between predictions and targets, averaged over all entries.
#[derive(Debug, Clone, Copy, PartialEq, Eq, Structural)]
pub enum LossType {
    /// Mean squared error.
    MSE,
    /// Mean absolute error.
    MAE,
}

} // verus!
