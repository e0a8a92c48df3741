//! www.manhuaren.com: entries of the update list.
use vstd::prelude::*;
use crate::text::push_str;

verus! {

/// A comic of the update list.
pub struct Item {
    pub title: String,
    /// The comic's key in its address.
    pub url_key: String,
}

/// The address of the comic with key `key`.
pub open spec fn item_url(key: Seq<char>) -> Seq<char> {
    "http://www.manhuaren.com/"@ + key + "/"@
}

impl Item {
    /// The comic's page address.
    pub fn full_url(&self) -> (r: String)
        ensures
            r@ == item_url(self.url_key@),
    {
        let mut r = String::from_str("http://www.manhuaren.com/");
        push_str(&mut r, self.url_key.as_str());
        push_str(&mut r, "/");
        r
    }
}

} // verus!
