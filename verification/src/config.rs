//! Fixed constants of the machine layout.
//!
//! Application images are linked against these values, so they are part of
//! the interface between the loader and the images it runs.

use vstd::prelude::*;

verus! {

/// Size of a page, the alignment of both stacks.
pub const PAGE_SIZE: usize = 4096;

/// Size of the supervisor stack in bytes.
pub const KERNEL_STACK_SIZE: usize = 4096 * 2;

/// Size of the application stack in bytes.
pub const USER_STACK_SIZE: usize = 4096 * 2;

/// Largest number of applications the table can hold.
pub const MAX_APP_NUM: usize = 16;

/// Number of boundaries that delimit `MAX_APP_NUM` images.
pub const APP_TABLE_SLOTS: usize = MAX_APP_NUM + 1;

/// Address at which every application is entered.
pub const APP_BASE_ADDRESS: usize = 0x80040000;

/// Size of the execution window, the most one image may occupy.
pub const APP_SIZE_LIMIT: usize = 0x20000;

} // verus!
