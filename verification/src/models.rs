//! Comics, their chapters and the pages of a chapter, with the ways the
//! extractors build them from links, URLs and index entries.
use vstd::prelude::*;
use crate::encoding::{percent_encoded_controls, utf8_percent_encode_controls};
use crate::filename::{page_fname, page_file_name};
use crate::headers::Headers;
use crate::text::{trim, trimmed};
use vstd::string::StringSliceAdditionalSpecFns;

verus! {

/// The MIME type given to a page whose type is not known.
pub open spec fn default_mime() -> Seq<char> {
    seq!['*', '/', '*']
}

/// One image of a chapter.
#[derive(Debug)]
pub struct Page {
    /// Position of the page in its chapter, from 0.
    pub n: usize,
    pub address: String,
    pub fname: String,
    pub fmime: String,
}

impl Clone for Page {
    fn clone(&self) -> (r: Self)
        ensures
            r == *self,
    {
        Page {
            n: self.n,
            address: self.address.clone(),
            fname: self.fname.clone(),
            fmime: self.fmime.clone(),
        }
    }
}

impl Page {
    /// Page `n` at `address`, saved under the name that `Page::fname` gives.
    pub fn new(n: usize, address: &str) -> (r: Page)
        ensures
            r.n == n,
            r.address@ == address@,
            r.fname@ == page_file_name(address@, n as nat),
            r.fmime@ == default_mime(),
    {
        let fname = Page::fname(address, &n);
        let fmime = String::from_str("*/*");
        proof {
            reveal_strlit("*/*");
        }
        Page { n, address: String::from_str(address), fname, fmime }
    }

    /// The saved name of page `n`: `n` in decimal, followed by `.` and the
    /// extension of the address's last path component cut before any `?`.
    pub fn fname(address: &str, n: &usize) -> (r: String)
        ensures
            r@ == page_file_name(address@, *n as nat),
    {
        page_fname(address, *n)
    }
}

/// The headers of a chapter's page requests: only `Referer`, set to the
/// percent-encoded chapter URL.
pub open spec fn referer_headers(url: Seq<char>) -> Map<Seq<char>, Seq<char>> {
    Map::empty().insert(referer_name(), percent_encoded_controls(encode_utf8_spec(url)))
}

/// The name of the `Referer` header.
pub open spec fn referer_name() -> Seq<char> {
    seq!['R', 'e', 'f', 'e', 'r', 'e', 'r']
}

/// The UTF-8 bytes of a string.
pub open spec fn encode_utf8_spec(s: Seq<char>) -> Seq<u8> {
    vstd::utf8::encode_utf8(s)
}

/// A chapter as a value: its title, URL, number, pages and page headers.
pub struct ChapterView {
    pub title: Seq<char>,
    pub url: Seq<char>,
    pub which: u32,
    pub pages: Seq<Page>,
    pub page_headers: Map<Seq<char>, Seq<char>>,
}

/// One chapter of a comic.
#[derive(Debug)]
pub struct Chapter {
    pub title: String,
    pub url: String,
    /// The chapter's number in its comic, from 1; 0 when not yet numbered.
    pub which: u32,
    pub pages: Vec<Page>,
    pub page_headers: Headers,
}

impl View for Chapter {
    type V = ChapterView;

    open spec fn view(&self) -> ChapterView {
        ChapterView {
            title: self.title@,
            url: self.url@,
            which: self.which,
            pages: self.pages@,
            page_headers: self.page_headers@,
        }
    }
}

impl Clone for Chapter {
    fn clone(&self) -> (r: Self)
        ensures
            r@ == self@,
    {
        let pages = self.pages.clone();
        assert(pages@ =~= self.pages@);
        Chapter {
            title: self.title.clone(),
            url: self.url.clone(),
            which: self.which,
            pages,
            page_headers: self.page_headers.clone(),
        }
    }
}

/// The chapter that `Chapter::new(title, url, which)` builds.
pub open spec fn new_chapter_view(title: Seq<char>, url: Seq<char>, which: u32) -> ChapterView {
    ChapterView {
        title: trimmed(title),
        url,
        which,
        pages: Seq::empty(),
        page_headers: referer_headers(url),
    }
}

impl Chapter {
    /// The page headers for a chapter at `url`: `Referer` set to the URL,
    /// percent-encoded with the `CONTROLS` set.
    pub fn make_headers(url: &str) -> (r: Headers)
        ensures
            r@ == referer_headers(url@),
    {
        let mut page_headers = Headers::new();
        let urlencoded = utf8_percent_encode_controls(url);
        let name = String::from_str("Referer");
        proof {
            reveal_strlit("Referer");
            assert(name@ =~= referer_name());
        }
        page_headers.insert(name, urlencoded);
        page_headers
    }

    /// A chapter with a trimmed title, its URL, its number and the
    /// `Referer` header for its pages; it has no pages yet.
    pub fn new(title: &str, url: &str, which: u32) -> (r: Chapter)
        ensures
            r@ == new_chapter_view(title@, url@, which),
    {
        let r = Chapter {
            title: Self::title(title),
            url: String::from_str(url),
            which,
            pages: Vec::new(),
            page_headers: Self::make_headers(url),
        };
        assert(r.pages@ =~= Seq::<Page>::empty());
        r
    }

    /// A chapter title: `title` with surrounding white space removed.
    pub fn title(title: &str) -> (r: String)
        ensures
            r@ == trimmed(title@),
    {
        trim(title)
    }

    /// Replaces the title with `title`, trimmed.
    pub fn set_title(&mut self, title: &str) -> (r: &Self)
        ensures
            final(self)@ == (ChapterView { title: trimmed(title@), ..old(self)@ }),
            r@ == final(self)@,
    {
        self.title = Chapter::title(title);
        self
    }

    /// Appends a page.
    pub fn push_page(&mut self, page: Page)
        ensures
            final(self)@ == (ChapterView { pages: old(self)@.pages.push(page), ..old(self)@ }),
    {
        self.pages.push(page);
    }

    /// Sets one page header, replacing any earlier value of that name.
    pub fn push_page_header(&mut self, key: &str, value: &str)
        ensures
            final(self)@ == (ChapterView {
                page_headers: old(self)@.page_headers.insert(key@, value@),
                ..old(self)@
            }),
    {
        self.page_headers.insert(String::from_str(key), String::from_str(value));
    }

    /// The chapter that stands for a whole comic with a single chapter: the
    /// comic's title and URL, number 0 (`From<&Comic>`).
    pub fn from_comic(c: &Comic) -> (r: Chapter)
        ensures
            r@ == new_chapter_view(c.title@, c.url@, 0),
    {
        Self::new(c.title.as_str(), c.url.as_str(), 0)
    }
}

impl<'a> From<&'a Comic> for Chapter {
    /// The chapter that stands for a whole comic with a single chapter.
    fn from(c: &'a Comic) -> (r: Chapter)
        ensures
            r@ == new_chapter_view(c.title@, c.url@, 0),
    {
        Chapter::from_comic(c)
    }
}

impl<'a> vstd::std_specs::convert::FromSpecImpl<&'a Comic> for Chapter {
    open spec fn obeys_from_spec() -> bool {
        false
    }

    open spec fn from_spec(v: &'a Comic) -> Chapter {
        arbitrary()
    }
}

impl Default for Chapter {
    fn default() -> (r: Self)
        ensures
            r@ == (ChapterView {
                title: Seq::empty(),
                url: Seq::empty(),
                which: 0,
                pages: Seq::empty(),
                page_headers: Map::empty(),
            }),
    {
        let r = Chapter {
            title: String::new(),
            url: String::new(),
            which: 0,
            pages: Vec::new(),
            page_headers: Headers::new(),
        };
        assert(r.pages@ =~= Seq::<Page>::empty());
        r
    }
}

/// Whether a comic is still being published.
#[derive(Debug, Clone, Copy, PartialEq, Eq)]
pub enum ComicState {
    Unknown,
    Completed,
    Ongoing,
}

impl Default for ComicState {
    fn default() -> (r: Self)
        ensures
            r == ComicState::Unknown,
    {
        ComicState::Unknown
    }
}

/// The kinds of content by which sources are classified.
#[derive(Debug, Clone, Copy, PartialEq, Eq, Structural)]
#[allow(non_camel_case_types)]
pub enum Tag {
    Chinese,
    English,
    Japanese,
    Wallpaper,
    NSFW,
}

/// Every tag, in declaration order.
pub open spec fn all_tags() -> Seq<Tag> {
    seq![Tag::Chinese, Tag::English, Tag::Japanese, Tag::Wallpaper, Tag::NSFW]
}

/// The display name of a tag.
pub open spec fn tag_name(t: Tag) -> Seq<char> {
    match t {
        Tag::Chinese => "中文"@,
        Tag::English => "英文"@,
        Tag::Japanese => "日文"@,
        Tag::Wallpaper => "壁纸"@,
        Tag::NSFW => "NSFW"@,
    }
}

impl Tag {
    /// Every tag, in declaration order.
    pub fn all() -> (r: Vec<Tag>)
        ensures
            r@ == all_tags(),
    {
        let r = vec![Tag::Chinese, Tag::English, Tag::Japanese, Tag::Wallpaper, Tag::NSFW];
        assert(r@ =~= all_tags());
        r
    }

    /// The tag at position `value` of the declaration order, if there is one.
    pub fn from_i32(value: i32) -> (r: Option<Tag>)
        ensures
            r == (if 0 <= value < all_tags().len() {
                Some(all_tags()[value as int])
            } else {
                None
            }),
    {
        if value == 0 {
            Some(Tag::Chinese)
        } else if value == 1 {
            Some(Tag::English)
        } else if value == 2 {
            Some(Tag::Japanese)
        } else if value == 3 {
            Some(Tag::Wallpaper)
        } else if value == 4 {
            Some(Tag::NSFW)
        } else {
            None
        }
    }

    /// The display name of the tag.
    pub fn name(&self) -> (r: &'static str)
        ensures
            r@ == tag_name(*self),
    {
        match self {
            Tag::Chinese => "中文",
            Tag::English => "英文",
            Tag::Japanese => "日文",
            Tag::Wallpaper => "壁纸",
            Tag::NSFW => "NSFW",
        }
    }
}

/// A comic as a value.
pub struct ComicView {
    pub title: Seq<char>,
    pub url: Seq<char>,
    pub cover: Seq<char>,
    pub chapters: Seq<ChapterView>,
    pub author: Seq<char>,
    pub description: Seq<char>,
    pub tags: Seq<Seq<char>>,
    pub last_updated_date: i64,
    pub state: ComicState,
}

/// A comic of an online source.
#[derive(Debug)]
pub struct Comic {
    pub title: String,
    pub url: String,
    pub cover: String,
    pub chapters: Vec<Chapter>,
    pub author: String,
    pub description: String,
    pub tags: Vec<String>,
    pub last_updated_date: i64,
    pub state: ComicState,
}

impl View for Comic {
    type V = ComicView;

    open spec fn view(&self) -> ComicView {
        ComicView {
            title: self.title@,
            url: self.url@,
            cover: self.cover@,
            chapters: self.chapters@.map_values(|c: Chapter| c@),
            author: self.author@,
            description: self.description@,
            tags: self.tags@.map_values(|t: String| t@),
            last_updated_date: self.last_updated_date,
            state: self.state,
        }
    }
}

impl Clone for Comic {
    fn clone(&self) -> (r: Self)
        ensures
            r@ == self@,
    {
        let mut chapters: Vec<Chapter> = Vec::new();
        let mut i: usize = 0;
        while i < self.chapters.len()
            invariant
                i <= self.chapters@.len(),
                chapters@.len() == i,
                forall|j: int| 0 <= j < i ==> (#[trigger] chapters@[j])@ == self.chapters@[j]@,
            decreases self.chapters@.len() - i,
        {
            chapters.push(self.chapters[i].clone());
            i = i + 1;
        }
        let mut tags: Vec<String> = Vec::new();
        let mut k: usize = 0;
        while k < self.tags.len()
            invariant
                k <= self.tags@.len(),
                tags@.len() == k,
                forall|j: int| 0 <= j < k ==> (#[trigger] tags@[j])@ == self.tags@[j]@,
            decreases self.tags@.len() - k,
        {
            tags.push(self.tags[k].clone());
            k = k + 1;
        }
        let r = Comic {
            title: self.title.clone(),
            url: self.url.clone(),
            cover: self.cover.clone(),
            chapters,
            author: self.author.clone(),
            description: self.description.clone(),
            tags,
            last_updated_date: self.last_updated_date,
            state: self.state,
        };
        assert(r@.chapters =~= self@.chapters);
        assert(r@.tags =~= self@.tags);
        r
    }
}

/// The comic that has the given title, URL and cover and nothing else.
pub open spec fn index_comic_view(title: Seq<char>, url: Seq<char>, cover: Seq<char>) -> ComicView {
    ComicView {
        title,
        url,
        cover,
        chapters: Seq::empty(),
        author: Seq::empty(),
        description: Seq::empty(),
        tags: Seq::empty(),
        last_updated_date: 0,
        state: ComicState::Unknown,
    }
}

impl Comic {
    fn with(title: String, url: String, cover: String) -> (r: Comic)
        ensures
            r@ == index_comic_view(title@, url@, cover@),
    {
        let r = Comic {
            title,
            url,
            cover,
            chapters: Vec::new(),
            author: String::new(),
            description: String::new(),
            tags: Vec::new(),
            last_updated_date: 0,
            state: ComicState::Unknown,
        };
        assert(r@.chapters =~= Seq::<ChapterView>::empty());
        assert(r@.tags =~= Seq::<Seq<char>>::empty());
        r
    }

    /// A comic with a title and a URL (the title is kept as given).
    pub fn new(title: &str, url: &str) -> (r: Comic)
        ensures
            r@ == index_comic_view(title@, url@, Seq::empty()),
    {
        Self::with(String::from_str(title), String::from_str(url), String::new())
    }

    /// A comic as listed in an index page: title, URL and cover.
    pub fn from_index(title: &str, url: &str, cover: &str) -> (r: Comic)
        ensures
            r@ == index_comic_view(title@, url@, cover@),
    {
        Self::with(String::from_str(title), String::from_str(url), String::from_str(cover))
    }

    /// Appends a chapter.
    pub fn push_chapter(&mut self, chapter: Chapter)
        ensures
            final(self)@ == (ComicView {
                chapters: old(self)@.chapters.push(chapter@),
                ..old(self)@
            }),
    {
        self.chapters.push(chapter);
        assert(self@.chapters =~= old(self)@.chapters.push(chapter@));
    }
}

impl Default for Comic {
    fn default() -> (r: Self)
        ensures
            r@ == index_comic_view(Seq::empty(), Seq::empty(), Seq::empty()),
    {
        Self::with(String::new(), String::new(), String::new())
    }
}

/// Built from a URL alone.
pub trait FromUrl: Sized {
    spec fn made_from_url(&self, url: Seq<char>) -> bool;

    fn from_url(url: &str) -> (r: Self)
        ensures
            r.made_from_url(url@),
    ;
}

/// Built from a link: its text and its target.
pub trait FromLink: Sized {
    spec fn made_from_link(&self, text: Seq<char>, href: Seq<char>) -> bool;

    fn from_link(text: &str, href: &str) -> (r: Self)
        ensures
            r.made_from_link(text@, href@),
    ;
}

/// Takes a cover image address.
pub trait SetCover: Sized {
    spec fn cover_set(&self, before: Self, address: Seq<char>) -> bool;

    fn set_cover(&mut self, address: &str)
        ensures
            final(self).cover_set(*old(self), address@),
    ;
}

/// Takes a position number.
pub trait SetWhich: Sized {
    spec fn which_set(&self, before: Self, which: usize) -> bool;

    fn set_which(&mut self, which: usize)
        ensures
            final(self).which_set(*old(self), which),
    ;
}

impl FromUrl for Comic {
    open spec fn made_from_url(&self, url: Seq<char>) -> bool {
        self@ == index_comic_view(Seq::empty(), url, Seq::empty())
    }

    fn from_url(url: &str) -> (r: Self) {
        Self::with(String::new(), String::from_str(url), String::new())
    }
}

impl FromUrl for Chapter {
    open spec fn made_from_url(&self, url: Seq<char>) -> bool {
        self@ == (ChapterView {
            title: Seq::empty(),
            url,
            which: 0,
            pages: Seq::empty(),
            page_headers: referer_headers(url),
        })
    }

    fn from_url(url: &str) -> (r: Self) {
        let r = Chapter {
            title: String::new(),
            url: String::from_str(url),
            which: 0,
            pages: Vec::new(),
            page_headers: Self::make_headers(url),
        };
        assert(r.pages@ =~= Seq::<Page>::empty());
        r
    }
}

impl SetWhich for Chapter {
    open spec fn which_set(&self, before: Self, which: usize) -> bool {
        self@ == (ChapterView { which: which as u32, ..before@ })
    }

    fn set_which(&mut self, which: usize) {
        self.which = which as u32;
    }
}

impl FromLink for Comic {
    open spec fn made_from_link(&self, text: Seq<char>, href: Seq<char>) -> bool {
        self@ == index_comic_view(text, href, Seq::empty())
    }

    fn from_link(text: &str, href: &str) -> (r: Self) {
        Self::new(text, href)
    }
}

impl FromLink for Chapter {
    open spec fn made_from_link(&self, text: Seq<char>, href: Seq<char>) -> bool {
        self@ == new_chapter_view(text, href, 0)
    }

    fn from_link(text: &str, href: &str) -> (r: Self) {
        Self::new(text, href, 0)
    }
}

impl SetCover for Comic {
    open spec fn cover_set(&self, before: Self, address: Seq<char>) -> bool {
        self@ == (ComicView { cover: address, ..before@ })
    }

    fn set_cover(&mut self, address: &str) {
        self.cover = String::from_str(address);
    }
}

impl SetCover for Chapter {
    open spec fn cover_set(&self, before: Self, address: Seq<char>) -> bool {
        self@ == before@
    }

    fn set_cover(&mut self, _address: &str) {
    }
}

} // verus!
