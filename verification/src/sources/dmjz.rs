//! manhua.dmzj.com: search results.
use vstd::prelude::*;
use crate::models::{index_comic_view, Comic};
use crate::text::{replace_all, replaced};

verus! {

/// One comic of a search result.
pub struct SearchComicItem {
    pub comic_name: String,
    pub comic_cover: String,
    /// The comic's address without a scheme, starting with `//`.
    pub comic_url_raw: String,
}

/// The address of a search result: every `//` of the raw address becomes
/// `https://`.
pub open spec fn full_comic_url(raw: Seq<char>) -> Seq<char> {
    replaced(raw, "//"@, "https://"@)
}

impl SearchComicItem {
    /// The comic's full address.
    pub fn comic_url_full(&self) -> (r: String)
        ensures
            r@ == full_comic_url(self.comic_url_raw@),
    {
        proof {
            reveal_strlit("//");
        }
        replace_all(self.comic_url_raw.as_str(), "//", "https://")
    }
}

impl From<SearchComicItem> for Comic {
    /// The comic of a search result: its name, full address and cover.
    fn from(c: SearchComicItem) -> (r: Comic)
        ensures
            r@ == index_comic_view(c.comic_name@, full_comic_url(c.comic_url_raw@), c.comic_cover@),
    {
        let url = c.comic_url_full();
        Comic::from_index(c.comic_name.as_str(), url.as_str(), c.comic_cover.as_str())
    }
}

impl vstd::std_specs::convert::FromSpecImpl<SearchComicItem> for Comic {
    open spec fn obeys_from_spec() -> bool {
        false
    }

    open spec fn from_spec(v: SearchComicItem) -> Comic {
        arbitrary()
    }
}

} // verus!
