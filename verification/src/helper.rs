//! Shared result alias of the driver.

use crate::error::UsbtmcError;
use vstd::prelude::*;

verus! {

/// Result of a driver operation.
pub type UsbtmcResult<T> = Result<T, UsbtmcError>;

} // verus!
