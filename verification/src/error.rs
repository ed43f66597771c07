//! Error values returned by the matrix engine and the metrics counters.

use vstd::prelude::*;

verus! {

/// Failures of `dot_product` and `multiply`.
///
/// `DimensionMismatch` is raised synchronously, before any work is handed
/// out, whenever the shapes of the operands do not line up.
/// `WorkerCommunicationFailure` is raised when a reply channel closes
/// without delivering a result; the whole call fails and no partial
/// matrix is returned.
#[derive(Clone, Copy, Debug, PartialEq, Eq, Structural)]
pub enum MatrixError {
    DimensionMismatch,
    WorkerCommunicationFailure,
}

/// Failures of the metrics counters.
///
/// `KeyNotFound` is returned by counters over a fixed key set when asked
/// to increment a key that was not registered at construction.
#[derive(Clone, Copy, Debug, PartialEq, Eq, Structural)]
pub enum MetricsError {
    KeyNotFound,
}

} // verus!
