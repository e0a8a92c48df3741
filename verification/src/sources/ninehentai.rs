//! 9hentai.com: books of the index and of search results.
use vstd::prelude::*;
use crate::text::{push_signed_decimal, push_str, signed_decimal};

verus! {

/// A book as the site's API lists it.
pub struct Book {
    pub id: i64,
    pub image_server: String,
    pub title: String,
    pub total_page: i32,
}

/// The address of the book with number `id`.
pub open spec fn book_url(id: i64) -> Seq<char> {
    "https://9hentai.com/g/"@ + signed_decimal(id as int) + "/"@
}

/// The cover address of book `id` on `server`.
pub open spec fn book_cover(server: Seq<char>, id: i64) -> Seq<char> {
    server + signed_decimal(id as int) + "/cover-small.jpg"@
}

impl Book {
    /// The book's page address.
    pub fn url(&self) -> (r: String)
        ensures
            r@ == book_url(self.id),
    {
        let mut r = String::from_str("https://9hentai.com/g/");
        push_signed_decimal(&mut r, self.id);
        push_str(&mut r, "/");
        r
    }

    /// The book's cover address.
    pub fn cover(&self) -> (r: String)
        ensures
            r@ == book_cover(self.image_server@, self.id),
    {
        let mut r = String::new();
        push_str(&mut r, self.image_server.as_str());
        push_signed_decimal(&mut r, self.id);
        push_str(&mut r, "/cover-small.jpg");
        assert(Seq::<char>::empty() + self.image_server@ == self.image_server@);
        r
    }
}

} // verus!
