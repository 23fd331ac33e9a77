//! Error kinds reported at the driver boundary.

use vstd::prelude::*;

verus! {

/// Coarse failure kinds of driver operations.
#[derive(Clone, Copy, Debug, PartialEq, Eq, Structural)]
pub enum DriverError {
    /// The request was malformed, the device was lost, or data read back
    /// from the device could not be used.
    InvalidData,
    /// The driver rejected a creation request: a capability is missing or a
    /// quota is exceeded.
    Unsupported,
    /// The device or the host ran out of memory.
    OutOfMemory,
}

} // verus!
