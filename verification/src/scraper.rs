use vstd::prelude::*;

verus! {

/// Number of items that a full page of the equipment listing holds.
pub const PAGE_SIZE: usize = 75;

/// Pause, in milliseconds, between two page requests.
pub const PAGE_DELAY_MS: u64 = 500;

/// Progress through the paged equipment listing: the offset of the next page
/// to ask for, and whether the listing is exhausted.
#[derive(Debug, Clone, Copy, PartialEq, Eq, Structural)]
pub struct Pagination {
    pub to_skip: usize,
    pub done: bool,
}

impl Pagination {
    /// The first page, at offset 0.
    pub fn new() -> (res: Self)
        ensures
            res.to_skip == 0,
            !res.done,
    {
        Pagination { to_skip: 0, done: false }
    }

    /// Records a received page of `count` items: a page shorter than a full
    /// one ends the listing; otherwise the next page follows this one.
    pub fn receive(&mut self, count: usize)
        requires
            !old(self).done,
            count >= PAGE_SIZE ==> old(self).to_skip + PAGE_SIZE <= usize::MAX,
        ensures
            final(self).done == (count < PAGE_SIZE),
            old(self).to_skip % PAGE_SIZE == 0 ==> final(self).to_skip % PAGE_SIZE == 0,
            final(self).to_skip == if count < PAGE_SIZE {
                old(self).to_skip
            } else {
                (old(self).to_skip + PAGE_SIZE) as usize
            },
    {
        if count < PAGE_SIZE {
            self.done = true;
        } else {
            self.to_skip = self.to_skip + PAGE_SIZE;
        }
    }
}

} // verus!
