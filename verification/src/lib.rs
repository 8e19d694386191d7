//! Application loading and execution switching for a single-core batch system.
//!
//! A fixed table of application images is run strictly one at a time: the next
//! image is copied into the execution window, an initial execution context is
//! staged on the supervisor stack, and the address of that context is handed
//! out for the privilege switch. Memory regions are modelled as data (a base
//! address and the bytes behind it), so every copy is bounds-checked and every
//! function here has a proved contract.

use vstd::prelude::*;

pub mod batch;
pub mod config;
pub mod image;
pub mod sbi;
pub mod stack;
pub mod text;
pub mod trap;
pub mod window;

verus! {

/// The platform call that powers the machine off.
///
/// The library only decides which call is made; the caller performs it.
pub fn shutdown() -> (call: sbi::SbiCall)
    ensures
        call == (sbi::SbiCall { which: sbi::SBI_SHUTDOWN, arg0: 0, arg1: 0, arg2: 0 }),
{
    sbi::SbiCall { which: sbi::SBI_SHUTDOWN, arg0: 0, arg1: 0, arg2: 0 }
}

} // verus!
