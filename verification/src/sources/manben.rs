//! www.manben.com: comics of the update list.
use vstd::prelude::*;
use crate::models::{index_comic_view, Comic};
use crate::text::concat;

verus! {

/// A comic as the update list gives it.
pub struct ComicItem {
    pub title: String,
    pub big_pic: String,
    /// The comic's path on the site.
    pub url: String,
}

/// The address of the comic at `path`.
pub open spec fn comic_url(path: Seq<char>) -> Seq<char> {
    "http://www.manben.com"@ + path
}

impl<'a> From<&'a ComicItem> for Comic {
    /// The comic of an update-list entry: its title, address and picture.
    fn from(c: &'a ComicItem) -> (r: Comic)
        ensures
            r@ == index_comic_view(c.title@, comic_url(c.url@), c.big_pic@),
    {
        let url = concat("http://www.manben.com", c.url.as_str());
        Comic::from_index(c.title.as_str(), url.as_str(), c.big_pic.as_str())
    }
}

impl<'a> vstd::std_specs::convert::FromSpecImpl<&'a ComicItem> for Comic {
    open spec fn obeys_from_spec() -> bool {
        false
    }

    open spec fn from_spec(v: &'a ComicItem) -> Comic {
        arbitrary()
    }
}

} // verus!
