//! Requests to the platform firmware, as plain values.

use vstd::prelude::*;

verus! {

/// Extension number of the legacy shutdown call.
pub const SBI_SHUTDOWN: usize = 8;

/// One call into the platform firmware: the call number and its three arguments.
#[derive(Clone, Copy, Debug, PartialEq, Eq, Structural)]
pub struct SbiCall {
    pub which: usize,
    pub arg0: usize,
    pub arg1: usize,
    pub arg2: usize,
}

} // verus!
