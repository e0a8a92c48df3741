//! lhscan.net: search results.
use vstd::prelude::*;
use crate::error::Error;
use crate::models::{index_comic_view, Comic};
use crate::routes::{match_content, regex_capture, regex_compiles};

verus! {

/// The pattern that finds a search result's address in its `onclick`.
pub open spec fn onclick_path_re() -> Seq<char> {
    "window\\.location='([^']+)'"@
}

/// One search result.
pub struct SearchDataItem {
    pub image: String,
    pub primary: String,
    /// Script that opens the result's page.
    pub onclick: String,
}

/// The address that `onclick` opens, if the pattern finds one.
pub open spec fn onclick_url(onclick: Seq<char>) -> Option<Seq<char>> {
    if regex_compiles(onclick_path_re()) {
        regex_capture(onclick_path_re(), onclick, 1)
    } else {
        None
    }
}

impl SearchDataItem {
    /// The address that the result's `onclick` opens.
    pub fn url(&self) -> (r: Result<String, Error>)
        ensures
            match onclick_url(self.onclick@) {
                Some(u) => r matches Ok(s) && s@ == u,
                None => r is Err,
            },
    {
        match_content(self.onclick.as_str(), "window\\.location='([^']+)'", 1)
    }
}

impl<'a> From<&'a SearchDataItem> for Comic {
    /// The comic of a search result: its title, the address its `onclick`
    /// opens (or the `onclick` text itself when none is found) and its
    /// image.
    fn from(item: &'a SearchDataItem) -> (r: Comic)
        ensures
            r@ == index_comic_view(
                item.primary@,
                match onclick_url(item.onclick@) {
                    Some(u) => u,
                    None => item.onclick@,
                },
                item.image@,
            ),
    {
        match item.url() {
            Ok(url) => Comic::from_index(item.primary.as_str(), url.as_str(), item.image.as_str()),
            Err(_) => Comic::from_index(item.primary.as_str(), item.onclick.as_str(), item.image.as_str()),
        }
    }
}

impl<'a> vstd::std_specs::convert::FromSpecImpl<&'a SearchDataItem> for Comic {
    open spec fn obeys_from_spec() -> bool {
        false
    }

    open spec fn from_spec(v: &'a SearchDataItem) -> Comic {
        arbitrary()
    }
}

} // verus!
