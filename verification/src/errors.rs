use vstd::prelude::*;

verus! {

/// Semantic error reported by control-plane operations.
///
/// The hot path (burst receive/transmit) never reports per-call errors:
/// insufficient acceptance is expressed purely through the returned count.
#[derive(Clone, Copy, Debug, PartialEq, Eq, Structural)]
pub enum Error {
    /// Malformed or out-of-range parameter.
    InvalidArgument,
    /// Operation illegal in the device's current state.
    InvalidState,
    /// The device lacks a requested feature.
    Unsupported,
    /// Pool or descriptor-memory exhaustion.
    OutOfResources,
    /// The device rejected a control operation; carries the status code.
    DeviceError(i32),
    /// A buffer-growth operation exceeded the headroom.
    InsufficientHeadroom,
    /// A buffer-growth operation exceeded the tailroom.
    InsufficientTailroom,
}

} // verus!
