//! Walking the pages of a chapter one at a time. The page list is known up
//! front for most sources; for others each page is fetched when it is first
//! reached. The walk's decisions are here: what the next step is, and what
//! the walk holds once a fetch has answered. Performing the fetch is left to
//! the caller.
use vstd::prelude::*;
use crate::filename::page_file_name;
use crate::models::{default_mime, Chapter, ChapterView, Page};

verus! {

/// The state of a walk: the chapter with the pages gathered so far, the
/// number of steps taken, and the page count (0: no pages; negative: not
/// known in advance).
pub struct PagesView {
    pub chapter: ChapterView,
    pub current_page: nat,
    pub total: i32,
}

/// What a step of the walk yields.
#[derive(Debug)]
pub enum PageStep {
    /// The next page, already known.
    Ready(Page),
    /// The walk is over.
    End,
    /// The page with this number (from 1) must be fetched and handed to
    /// `ChapterPages::take_fetched`.
    Fetch(usize),
}

/// The walk over the pages of one chapter.
pub struct ChapterPages {
    chapter: Chapter,
    current_page: usize,
    pub total: i32,
}

impl View for ChapterPages {
    type V = PagesView;

    closed spec fn view(&self) -> PagesView {
        PagesView {
            chapter: self.chapter@,
            current_page: self.current_page as nat,
            total: self.total,
        }
    }
}

/// Page `i` made from `address`, as `Page::new(i, address)` makes it.
pub open spec fn is_page_of(p: Page, i: nat, address: Seq<char>) -> bool {
    &&& p.n == i
    &&& p.address@ == address
    &&& p.fname@ == page_file_name(address, i)
    &&& p.fmime@ == default_mime()
}

/// Whether the walk is over after `step` steps.
pub open spec fn walk_ended(total: i32, step: nat) -> bool {
    total == 0 || (total > 0 && total < step)
}

/// The outcome of the next step from state `v`, and the state after it.
pub open spec fn next_step(v: PagesView) -> (PagesView, Option<Option<Page>>) {
    let step = v.current_page + 1;
    let after = PagesView { current_page: step, ..v };
    if walk_ended(v.total, step) {
        (after, Some(None))
    } else if v.current_page < v.chapter.pages.len() {
        (after, Some(Some(v.chapter.pages[v.current_page as int])))
    } else {
        (after, None)
    }
}

/// The pages at `addresses`, numbered from `first`.
pub fn pages_from(first: usize, addresses: &Vec<String>) -> (r: Vec<Page>)
    requires
        first + addresses@.len() <= usize::MAX,
    ensures
        r@.len() == addresses@.len(),
        forall|i: int|
            0 <= i < addresses@.len() ==> is_page_of(
                #[trigger] r@[i],
                (first + i) as nat,
                addresses@[i]@,
            ),
{
    let mut r: Vec<Page> = Vec::new();
    let mut i: usize = 0;
    while i < addresses.len()
        invariant
            i <= addresses@.len(),
            first + addresses@.len() <= usize::MAX,
            r@.len() == i,
            forall|j: int|
                0 <= j < i ==> is_page_of(#[trigger] r@[j], (first + j) as nat, addresses@[j]@),
        decreases addresses@.len() - i,
    {
        r.push(Page::new(first + i, addresses[i].as_str()));
        i = i + 1;
    }
    r
}

impl ChapterPages {
    /// The walk has room to take another step without leaving the range of
    /// page numbers that the count and the page list use.
    pub open spec fn can_step(&self) -> bool {
        &&& self@.chapter.pages.len() <= i32::MAX
        &&& self@.current_page < i32::MAX
    }

    /// A walk over `chapter` with `total` pages; the pages at
    /// `init_addresses` are appended first, numbered from 0.
    pub fn new(chapter: Chapter, total: i32, init_addresses: Vec<String>) -> (r: ChapterPages)
        ensures
            r@.current_page == 0,
            r@.total == total,
            r@.chapter.title == chapter@.title,
            r@.chapter.url == chapter@.url,
            r@.chapter.which == chapter@.which,
            r@.chapter.page_headers == chapter@.page_headers,
            r@.chapter.pages.len() == chapter@.pages.len() + init_addresses@.len(),
            r@.chapter.pages.take(chapter@.pages.len() as int) == chapter@.pages,
            forall|i: int|
                0 <= i < init_addresses@.len() ==> is_page_of(
                    #[trigger] r@.chapter.pages[chapter@.pages.len() + i],
                    i as nat,
                    init_addresses@[i]@,
                ),
    {
        let mut chapter = chapter;
        let ghost start = chapter@;
        let mut i: usize = 0;
        while i < init_addresses.len()
            invariant
                i <= init_addresses@.len(),
                chapter@.title == start.title,
                chapter@.url == start.url,
                chapter@.which == start.which,
                chapter@.page_headers == start.page_headers,
                chapter@.pages.len() == start.pages.len() + i,
                chapter@.pages.take(start.pages.len() as int) == start.pages,
                forall|j: int|
                    0 <= j < i ==> is_page_of(
                        #[trigger] chapter@.pages[start.pages.len() + j],
                        j as nat,
                        init_addresses@[j]@,
                    ),
            decreases init_addresses@.len() - i,
        {
            let page = Page::new(i, init_addresses[i].as_str());
            let ghost before = chapter@.pages;
            chapter.push_page(page);
            proof {
                assert(chapter@.pages.take(start.pages.len() as int) =~= before.take(
                    start.pages.len() as int,
                ));
                assert forall|j: int| 0 <= j < i + 1 implies is_page_of(
                    #[trigger] chapter@.pages[start.pages.len() + j],
                    j as nat,
                    init_addresses@[j]@,
                ) by {
                    if j < i {
                        assert(chapter@.pages[start.pages.len() + j] == before[start.pages.len()
                            + j]);
                    }
                }
            }
            i = i + 1;
        }
        ChapterPages { chapter, current_page: 0, total }
    }

    /// A walk over `chapter` whose pages are all at `addresses`: they are
    /// appended and the count is their number.
    pub fn full(chapter: Chapter, addresses: Vec<String>) -> (r: ChapterPages)
        ensures
            r@.current_page == 0,
            r@.total == addresses@.len() as i32,
            r@.chapter.title == chapter@.title,
            r@.chapter.url == chapter@.url,
            r@.chapter.which == chapter@.which,
            r@.chapter.page_headers == chapter@.page_headers,
            r@.chapter.pages.len() == chapter@.pages.len() + addresses@.len(),
            r@.chapter.pages.take(chapter@.pages.len() as int) == chapter@.pages,
            forall|i: int|
                0 <= i < addresses@.len() ==> is_page_of(
                    #[trigger] r@.chapter.pages[chapter@.pages.len() + i],
                    i as nat,
                    addresses@[i]@,
                ),
    {
        let total = addresses.len() as i32;
        Self::new(chapter, total, addresses)
    }

    /// The title of the chapter being walked.
    pub fn chapter_title_clone(&self) -> (r: String)
        ensures
            r@ == self@.chapter.title,
    {
        self.chapter.title.clone()
    }

    /// The chapter being walked, with the pages gathered so far.
    pub fn chapter(&self) -> (r: &Chapter)
        ensures
            r@ == self@.chapter,
    {
        &self.chapter
    }

    /// Ends the walk and hands back the chapter.
    pub fn into_chapter(self) -> (r: Chapter)
        ensures
            r@ == self@.chapter,
    {
        self.chapter
    }

    /// Whether another step stays within the range of page numbers that the
    /// count and the page list use.
    pub fn within_limits(&self) -> (r: bool)
        ensures
            r == self.can_step(),
    {
        self.chapter.pages.len() <= 2147483647usize && self.current_page < 2147483647usize
    }

    /// Takes the next step: the walk is over when the count is 0 or is
    /// positive and already reached; otherwise the next page is yielded if
    /// it is already known, or else it must be fetched.
    pub fn step(&mut self) -> (r: PageStep)
        requires
            old(self).can_step(),
        ensures
            final(self)@ == next_step(old(self)@).0,
            match next_step(old(self)@).1 {
                Some(None) => r is End,
                Some(Some(p)) => r == PageStep::Ready(p),
                None => r == PageStep::Fetch((old(self)@.current_page + 1) as usize),
            },
    {
        self.current_page = self.current_page + 1;
        if self.total == 0 || (self.total > 0 && (self.total as usize) < self.current_page) {
            return PageStep::End;
        }
        let page_index = self.current_page - 1;
        if (self.chapter.pages.len() as i32) - 1 >= page_index as i32 {
            return PageStep::Ready(self.chapter.pages[page_index].clone());
        }
        PageStep::Fetch(self.current_page)
    }

    /// Takes the pages that a fetch returned: they are appended to the
    /// chapter, and the first of them is the step's page; none means the
    /// walk is over.
    pub fn take_fetched(&mut self, pages: Vec<Page>) -> (r: Option<Page>)
        ensures
            final(self)@ == (PagesView {
                chapter: ChapterView {
                    pages: old(self)@.chapter.pages + pages@,
                    ..old(self)@.chapter
                },
                ..old(self)@
            }),
            r == (if pages@.len() > 0 {
                Some(pages@[0])
            } else {
                None
            }),
    {
        let mut pages = pages;
        let ghost added = pages@;
        let count = pages.len();
        let ghost before = self.chapter@;
        let mut chapter = Chapter::default();
        std::mem::swap(&mut chapter, &mut self.chapter);
        chapter.pages.append(&mut pages);
        std::mem::swap(&mut chapter, &mut self.chapter);
        let current_len = self.chapter.pages.len();
        proof {
            assert(self.chapter@.pages == before.pages + added);
        }
        if count > 0 {
            let p = self.chapter.pages[current_len - count].clone();
            assert(p == added[0]);
            Some(p)
        } else {
            None
        }
    }
}

} // verus!
