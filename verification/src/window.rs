//! The execution window: the one region in which an application runs.

use vstd::prelude::*;
use crate::config::{APP_BASE_ADDRESS, APP_SIZE_LIMIT};

verus! {

/// An image followed by as many zero bytes as it takes to fill the window.
pub open spec fn padded_image(image: Seq<u8>) -> Seq<u8>
    recommends
        image.len() <= APP_SIZE_LIMIT,
{
    Seq::new(APP_SIZE_LIMIT as nat, |i: int| if i < image.len() { image[i] } else { 0u8 })
}

/// The fixed region `[APP_BASE_ADDRESS, APP_BASE_ADDRESS + APP_SIZE_LIMIT)`.
///
/// Exactly one application image resides here at a time. The view is the
/// content of the region, byte by byte.
pub struct ExecutionWindow {
    data: Vec<u8>,
}

impl View for ExecutionWindow {
    type V = Seq<u8>;

    closed spec fn view(&self) -> Seq<u8> {
        self.data@
    }
}

impl ExecutionWindow {
    /// The window always spans exactly `APP_SIZE_LIMIT` bytes.
    pub open spec fn wf(&self) -> bool {
        self@.len() == APP_SIZE_LIMIT
    }

    /// A window that holds nothing but zeros.
    pub fn new() -> (window: Self)
        ensures
            window.wf(),
            window@ == padded_image(Seq::<u8>::empty()),
    {
        let data: Vec<u8> = vec![0u8; APP_SIZE_LIMIT];
        assert(data@ =~= padded_image(Seq::<u8>::empty()));
        ExecutionWindow { data }
    }

    /// Address of the first byte, where every application is entered.
    pub fn base(&self) -> (addr: usize)
        ensures
            addr == APP_BASE_ADDRESS,
    {
        APP_BASE_ADDRESS
    }

    /// Address one past the last byte.
    pub fn end(&self) -> (addr: usize)
        ensures
            addr == APP_BASE_ADDRESS + APP_SIZE_LIMIT,
    {
        APP_BASE_ADDRESS + APP_SIZE_LIMIT
    }

    /// The content of the window.
    pub fn as_slice(&self) -> (bytes: &[u8])
        ensures
            bytes@ == self@,
    {
        self.data.as_slice()
    }

    /// Overwrites every byte with zero, one byte at a time.
    pub fn clear(&mut self)
        requires
            old(self).wf(),
        ensures
            final(self).wf(),
            final(self)@ == padded_image(Seq::<u8>::empty()),
    {
        let mut i: usize = 0;
        while i < APP_SIZE_LIMIT
            invariant
                i <= APP_SIZE_LIMIT,
                self.data@.len() == APP_SIZE_LIMIT,
                forall|j: int| 0 <= j < i ==> self.data@[j] == 0u8,
            decreases APP_SIZE_LIMIT - i,
        {
            self.data[i] = 0u8;
            i += 1;
        }
        assert(self.data@ =~= padded_image(Seq::<u8>::empty()));
    }

    /// Copies `image` to the start of the window and leaves the rest as it was.
    ///
    /// An image longer than the window is not copied at all.
    pub fn write(&mut self, image: &[u8]) -> (fits: bool)
        requires
            old(self).wf(),
        ensures
            final(self).wf(),
            fits <==> image@.len() <= APP_SIZE_LIMIT,
            fits ==> final(self)@ == image@ + old(self)@.subrange(
                image@.len() as int,
                APP_SIZE_LIMIT as int,
            ),
            !fits ==> final(self)@ == old(self)@,
    {
        let len: usize = image.len();
        if len > APP_SIZE_LIMIT {
            return false;
        }
        let mut i: usize = 0;
        while i < len
            invariant
                i <= len,
                len == image@.len(),
                len <= APP_SIZE_LIMIT,
                self.data@.len() == APP_SIZE_LIMIT,
                forall|j: int| 0 <= j < i ==> self.data@[j] == image@[j],
                forall|j: int| i <= j < APP_SIZE_LIMIT ==> self.data@[j] == old(self).data@[j],
            decreases len - i,
        {
            self.data[i] = image[i];
            i += 1;
        }
        assert(self.data@ =~= image@ + old(self).data@.subrange(
            len as int,
            APP_SIZE_LIMIT as int,
        ));
        true
    }

    /// Replaces the content of the window by `image`, padded with zeros.
    ///
    /// The whole window is zeroed first, so nothing of an earlier, longer image
    /// survives behind a shorter one. An image longer than the window is
    /// refused and the window keeps what it held.
    pub fn load(&mut self, image: &[u8]) -> (fits: bool)
        requires
            old(self).wf(),
        ensures
            final(self).wf(),
            fits <==> image@.len() <= APP_SIZE_LIMIT,
            fits ==> final(self)@ == padded_image(image@),
            !fits ==> final(self)@ == old(self)@,
    {
        if image.len() > APP_SIZE_LIMIT {
            return false;
        }
        self.clear();
        let fits = self.write(image);
        assert(self.data@ =~= padded_image(image@));
        fits
    }
}

} // verus!
