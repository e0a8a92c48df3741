//! www.kuaikanmanhua.com: topics of the index and of search results.
use vstd::prelude::*;
use crate::text::{push_signed_decimal, push_str, signed_decimal};

verus! {

/// A comic ("topic") as the site's API lists it.
pub struct Topic {
    pub id: i64,
    pub title: String,
    pub vertical_image_url: String,
}

/// The address of the topic with number `id`.
pub open spec fn topic_url(id: i64) -> Seq<char> {
    "https://www.kuaikanmanhua.com/web/topic/"@ + signed_decimal(id as int) + "/"@
}

impl Topic {
    /// The topic's page address.
    pub fn url(&self) -> (r: String)
        ensures
            r@ == topic_url(self.id),
    {
        let mut r = String::from_str("https://www.kuaikanmanhua.com/web/topic/");
        push_signed_decimal(&mut r, self.id);
        push_str(&mut r, "/");
        r
    }
}

} // verus!
