//! www.177pic.info: a chapter's pages are spread over listing pages of
//! unknown size; which listing page to fetch next follows from the pages
//! seen so far.
use vstd::prelude::*;

verus! {

/// How far the listing pages of a chapter have been read.
pub struct ListingCursor {
    /// The number of page addresses read so far.
    pub last_page_end: usize,
    /// The listing page read last (0 before the first).
    pub next_page: usize,
}

impl ListingCursor {
    /// Nothing read yet.
    pub fn new() -> (r: ListingCursor)
        ensures
            r.last_page_end == 0,
            r.next_page == 0,
    {
        ListingCursor { last_page_end: 0, next_page: 0 }
    }

    /// The listing page to read for chapter page `current_page` (from 1):
    /// the next one when that page lies beyond the addresses read so far,
    /// else the one read last.
    pub fn listing_page_for(&mut self, current_page: usize) -> (r: usize)
        requires
            old(self).last_page_end < current_page ==> old(self).next_page < usize::MAX,
        ensures
            final(self).next_page == (if old(self).last_page_end < current_page {
                old(self).next_page + 1
            } else {
                old(self).next_page as int
            }),
            final(self).last_page_end == old(self).last_page_end,
            r == final(self).next_page,
    {
        if self.last_page_end < current_page {
            self.next_page = self.next_page + 1;
        }
        self.next_page
    }

    /// Counts `count` more addresses as read.
    pub fn record(&mut self, count: usize)
        requires
            old(self).last_page_end + count <= usize::MAX,
        ensures
            final(self).last_page_end == old(self).last_page_end + count,
            final(self).next_page == old(self).next_page,
    {
        self.last_page_end = self.last_page_end + count;
    }
}

} // verus!
