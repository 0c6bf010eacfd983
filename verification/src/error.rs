//! The ways a USBTMC operation can fail.

use crate::endpoint::Direction;
use vstd::prelude::*;

verus! {

/// Failure kinds of the driver. Every error surfaces to the caller at once;
/// the driver performs no retries.
#[derive(Clone, Copy, Debug, PartialEq, Eq, Structural)]
pub enum UsbtmcError {
    /// No enumerated device matches the identity filters, or every matching
    /// candidate failed to open.
    DeviceNotFound,
    /// The opened device has no bulk endpoint of the required direction.
    EndpointNotFound(Direction),
    /// A bulk transfer failed or timed out.
    Transport,
    /// The response bytes are not valid text, or the response ends before
    /// the assumed 12-byte header.
    Decode,
}

} // verus!
