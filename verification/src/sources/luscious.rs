//! www.luscious.net: albums of the index.
use vstd::prelude::*;
use crate::models::{index_comic_view, Comic};
use crate::text::{concat, replace_all, replaced};

verus! {

/// An album's cover.
pub struct Cover {
    pub url: String,
}

/// An album as the site's API lists it.
pub struct ComicItem {
    pub title: String,
    /// The album's path on the site.
    pub url: String,
    pub cover: Cover,
}

/// The address of the album at `path`.
pub open spec fn album_url(path: Seq<char>) -> Seq<char> {
    "https://www.luscious.net"@ + path
}

impl<'a> From<&'a ComicItem> for Comic {
    /// The comic of an album: its title, address and cover.
    fn from(c: &'a ComicItem) -> (r: Comic)
        ensures
            r@ == index_comic_view(c.title@, album_url(c.url@), c.cover.url@),
    {
        let url = concat("https://www.luscious.net", c.url.as_str());
        Comic::from_index(c.title.as_str(), url.as_str(), c.cover.url.as_str())
    }
}

impl<'a> vstd::std_specs::convert::FromSpecImpl<&'a ComicItem> for Comic {
    open spec fn obeys_from_spec() -> bool {
        false
    }

    open spec fn from_spec(v: &'a ComicItem) -> Comic {
        arbitrary()
    }
}

/// The full-size form of a picture address: `w315` becomes `w1024`, then
/// `315x0` becomes `1024x0`.
pub open spec fn full_size(address: Seq<char>) -> Seq<char> {
    replaced(replaced(address, "w315"@, "w1024"@), "315x0"@, "1024x0"@)
}

/// The full-size form of the picture address `address`.
pub fn full_size_address(address: &str) -> (r: String)
    ensures
        r@ == full_size(address@),
{
    let small = "w315";
    let small_size = "315x0";
    proof {
        reveal_strlit("w315");
        reveal_strlit("315x0");
    }
    let wide = replace_all(address, small, "w1024");
    replace_all(wide.as_str(), small_size, "1024x0")
}

} // verus!
