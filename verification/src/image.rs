//! The read-only region that holds the embedded application images.

use vstd::prelude::*;
use vstd::slice::slice_subrange;

verus! {

/// A contiguous run of read-only bytes and the address of its first byte.
///
/// The view is the content of the region.
pub struct ImageRegion<'a> {
    base: usize,
    bytes: &'a [u8],
}

impl<'a> View for ImageRegion<'a> {
    type V = Seq<u8>;

    closed spec fn view(&self) -> Seq<u8> {
        self.bytes@
    }
}

impl<'a> ImageRegion<'a> {
    /// Address of the first byte of the region.
    pub closed spec fn base_addr(&self) -> int {
        self.base as int
    }

    /// Address one past the last byte of the region.
    pub open spec fn end_addr(&self) -> int {
        self.base_addr() + self@.len()
    }

    /// The end of the region is itself an address.
    pub open spec fn wf(&self) -> bool {
        0 <= self.base_addr() && self.end_addr() <= usize::MAX
    }

    /// Whether the addresses `[start, end)` form a range inside the region.
    pub open spec fn covers(&self, start: int, end: int) -> bool {
        self.base_addr() <= start <= end <= self.end_addr()
    }

    /// The bytes behind the addresses `[start, end)`.
    pub open spec fn range(&self, start: int, end: int) -> Seq<u8>
        recommends
            self.covers(start, end),
    {
        self@.subrange(start - self.base_addr(), end - self.base_addr())
    }

    /// Places `bytes` at address `base`, unless they would run past the last address.
    pub fn new(base: usize, bytes: &'a [u8]) -> (region: Option<Self>)
        ensures
            region is Some <==> base + bytes@.len() <= usize::MAX,
            region matches Some(r) ==> r.wf() && r.base_addr() == base && r@ == bytes@,
    {
        if bytes.len() > usize::MAX - base {
            None
        } else {
            Some(ImageRegion { base, bytes })
        }
    }

    /// Address of the first byte.
    pub fn start(&self) -> (addr: usize)
        ensures
            addr == self.base_addr(),
    {
        self.base
    }

    /// Address one past the last byte.
    pub fn end(&self) -> (addr: usize)
        requires
            self.wf(),
        ensures
            addr == self.end_addr(),
    {
        self.base + self.bytes.len()
    }

    /// The bytes behind `[start, end)`, if that range lies inside the region.
    pub fn slice(&self, start: usize, end: usize) -> (bytes: Option<&'a [u8]>)
        requires
            self.wf(),
        ensures
            bytes is Some <==> self.covers(start as int, end as int),
            bytes matches Some(b) ==> b@ == self.range(start as int, end as int),
    {
        if self.base <= start && start <= end && end - self.base <= self.bytes.len() {
            Some(slice_subrange(self.bytes, start - self.base, end - self.base))
        } else {
            None
        }
    }
}

} // verus!
