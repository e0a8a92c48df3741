//! www.tvbsmh.com: chapters of a comic's chapter list.
use vstd::prelude::*;
use crate::text::{push_signed_decimal, push_str, signed_decimal};

verus! {

/// A chapter as the site's API lists it.
pub struct ChapterItem {
    pub chapter_id: i64,
    pub title: String,
}

/// The address of chapter `chapter_id` of the comic with number `comic_id`
/// and name `comic_name`.
pub open spec fn chapter_url(comic_id: Seq<char>, chapter_id: i64, comic_name: Seq<char>) -> Seq<
    char,
> {
    "https://www.tvbsmh.com/series-"@ + comic_id + "-"@ + signed_decimal(chapter_id as int)
        + "-1-"@ + comic_name
}

impl ChapterItem {
    /// The chapter's page address.
    pub fn url(&self, comic_id: &str, comic_name: &str) -> (r: String)
        ensures
            r@ == chapter_url(comic_id@, self.chapter_id, comic_name@),
    {
        let mut r = String::from_str("https://www.tvbsmh.com/series-");
        push_str(&mut r, comic_id);
        push_str(&mut r, "-");
        push_signed_decimal(&mut r, self.chapter_id);
        push_str(&mut r, "-1-");
        push_str(&mut r, comic_name);
        r
    }
}

} // verus!
