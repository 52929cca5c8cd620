use vstd::prelude::*;

verus! {

/// Errors surfaced by the renderer.
///
/// Construction-time errors (`MissingRequiredExtensions`) abort renderer
/// creation entirely. Per-frame errors (`NoTarget`, `DeviceCallFailed`,
/// `AllocationLimitExceeded`) abort only the frame in which they occur.
#[derive(Debug, Clone, Copy, PartialEq, Eq, Structural)]
pub enum Error {
    /// An underlying graphics-API call returned the contained error code.
    /// The code is propagated verbatim and the call is never retried.
    DeviceCallFailed(i32),
    /// The device was created without the extensions the renderer requires.
    /// The renderer must not be built.
    MissingRequiredExtensions,
    /// Rendering was attempted while no render target was bound.
    /// Recoverable: the caller must bind a target before retrying.
    NoTarget,
    /// Allocating would exceed the device's allocation ceiling (the contained
    /// limit). Recoverable only by freeing existing allocations first.
    AllocationLimitExceeded(u64),
    /// The two baseline pixel formats are unsupported. Fatal to
    /// format-dependent features, not to construction.
    MissingMandatoryFormats,
}

} // verus!
