use vstd::prelude::*;

verus! {

/// The error kinds the engine can surface.
///
/// Every failure aborts the current location's operation; none is retried
/// internally.
#[derive(Clone, Copy, Debug, PartialEq, Eq, Structural)]
pub enum EngineError {
    /// The store could not be reached or an API call failed outright.
    StoreCommunication,
    /// The store returned a record that violates its own contract, e.g. a
    /// listed object or version without a size, or totals beyond the
    /// representable range.
    Data,
    /// A purge was requested with `require_versioning` against a location
    /// whose versioning status is not `Enabled`.
    Precondition,
    /// A location string does not have the `scheme://bucket/prefix` shape.
    Format,
}

} // verus!
