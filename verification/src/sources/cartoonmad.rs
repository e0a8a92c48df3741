//! www.cartoonmad.com: chapter pages.
use vstd::prelude::*;
use crate::filename::first_index_in;
use crate::text::{
    chars_of, first_index_of, lemma_first_index_of, push_str, replace_all, replaced, string_of,
};

verus! {

/// `url` up to its first `?`, if any.
pub open spec fn before_query(url: Seq<char>) -> Seq<char> {
    match first_index_of(url, '?') {
        Some(i) => url.take(i),
        None => url,
    }
}

/// The address by which a chapter page links to itself: `url` with every
/// `https` written `http`, without its query.
pub open spec fn chapter_link_url(url: Seq<char>) -> Seq<char> {
    before_query(replaced(url, "https"@, "http"@))
}

/// The address by which the chapter page at `url` links to itself.
pub fn chapter_link(url: &str) -> (r: String)
    ensures
        r@ == chapter_link_url(url@),
{
    let from = "https";
    proof {
        reveal_strlit("https");
    }
    let plain = replace_all(url, from, "http");
    let cs = chars_of(plain.as_str());
    assert(cs@.subrange(0, cs@.len() as int) == cs@);
    proof {
        lemma_first_index_of(cs@, '?');
    }
    match first_index_in(cs.as_slice(), 0, cs.len(), '?') {
        Some(k) => {
            assert(cs@.subrange(0, k as int) == cs@.take(k as int));
            string_of(cs.as_slice(), 0, k)
        },
        None => {
            assert(cs@.subrange(0, cs@.len() as int) == cs@);
            plain
        },
    }
}

/// A chapter's title: the comic's name without `漫畫`, ` - `, and the
/// text of the chapter's link.
pub open spec fn chapter_title_text(name: Seq<char>, link_text: Seq<char>) -> Seq<char> {
    replaced(name, "漫畫"@, Seq::empty()) + " - "@ + link_text
}

/// The title of a chapter of the comic `name` whose link reads
/// `link_text`.
pub fn chapter_title(name: &str, link_text: &str) -> (r: String)
    ensures
        r@ == chapter_title_text(name@, link_text@),
{
    let word = "漫畫";
    let nothing = "";
    proof {
        reveal_strlit("漫畫");
        reveal_strlit("");
        assert(nothing@ =~= Seq::<char>::empty());
    }
    let mut r = replace_all(name, word, nothing);
    push_str(&mut r, " - ");
    push_str(&mut r, link_text);
    r
}

} // verus!
