//! Reading a list of comics or chapters from an index, search or chapter
//! page: each entry is a link (its text or a chosen attribute as title, its
//! target as address), optionally inside a parent element that also holds
//! a cover image.
use vstd::prelude::*;
use crate::dom::{
    attr, css_valid, doc_matches, element_attr, element_first_text, element_matches, first_text,
    prepend_ok, select, select_within, Document,
};
use crate::error::Error;
use crate::extract::{check_selector, quoted_selector_error};
use crate::models::{FromLink, SetCover};
use crate::text::{concat, push_str, trim, trimmed};

verus! {

/// Where the entries of a list page are and how to read them.
pub struct ListQuery<'a> {
    /// Selects the links themselves (when `parent_dom` is empty).
    pub target_dom: &'a str,
    /// Selects, inside a link, the element whose text is the title.
    pub target_text_dom: &'a str,
    /// The link attribute that holds the title.
    pub target_text_attr: &'a str,
    /// Selects each entry's parent element (holding the link and cover).
    pub parent_dom: &'a str,
    /// Selects the cover image inside a parent.
    pub cover_dom: &'a str,
    /// The cover attribute that holds its address.
    pub cover_attr: &'a str,
    /// Put in front of every cover address.
    pub cover_prefix: &'a str,
    /// Selects the link inside a parent.
    pub link_dom: &'a str,
    /// The link attribute that holds its address.
    pub link_attr: &'a str,
    /// Put in front of every link address.
    pub link_prefix: &'a str,
    /// Another link attribute that holds the title.
    pub link_text_attr: &'a str,
}

/// A (title, address) link and, for parent entries, its cover address.
pub type Entry = (Seq<char>, Seq<char>, Option<Seq<char>>);

/// `text` quoted in backquotes after `prefix`.
pub open spec fn quoted(prefix: Seq<char>, text: Seq<char>) -> Seq<char> {
    prefix + text + "`"@
}

pub(crate) fn quoted_error(prefix: &str, text: &str) -> (r: Error)
    ensures
        r.message@ == quoted(prefix@, text@),
{
    let mut m = String::from_str(prefix);
    push_str(&mut m, text);
    push_str(&mut m, "`");
    Error { message: m }
}

/// `item` is what `entry` describes: made from its link, with its cover
/// set when it has one.
pub open spec fn item_of<T: FromLink + SetCover>(item: T, entry: Entry) -> bool {
    match entry.2 {
        None => item.made_from_link(entry.0, entry.1),
        Some(c) => exists|b: T|
            #![trigger b.made_from_link(entry.0, entry.1)]
            b.made_from_link(entry.0, entry.1) && item.cover_set(b, c),
    }
}

impl<'a> ListQuery<'a> {
    /// A query with the defaults: covers in `src`, links in `href`,
    /// everything else empty.
    pub fn new() -> (r: ListQuery<'static>)
        ensures
            r.target_dom@.len() == 0,
            r.target_text_dom@.len() == 0,
            r.target_text_attr@.len() == 0,
            r.parent_dom@.len() == 0,
            r.cover_dom@.len() == 0,
            r.cover_attr@ == "src"@,
            r.cover_prefix@.len() == 0,
            r.link_dom@.len() == 0,
            r.link_attr@ == "href"@,
            r.link_prefix@.len() == 0,
            r.link_text_attr@.len() == 0,
    {
        proof {
            reveal_strlit("");
        }
        ListQuery {
            target_dom: "",
            target_text_dom: "",
            target_text_attr: "",
            parent_dom: "",
            cover_dom: "",
            cover_attr: "src",
            cover_prefix: "",
            link_dom: "",
            link_attr: "href",
            link_prefix: "",
            link_text_attr: "",
        }
    }

    /// The title of the link `element`, before trimming: the text of its
    /// `target_text_dom` element, replaced by `target_text_attr`, then by
    /// `link_text_attr` when they are set; the link's own text when all of
    /// that is empty.
    pub open spec fn title_spec(&self, source: Seq<char>, element: usize) -> Result<
        Seq<char>,
        Seq<char>,
    > {
        let ttd = self.target_text_dom@;
        let tta = self.target_text_attr@;
        let lta = self.link_text_attr@;
        let t0: Result<Seq<char>, Seq<char>> = if ttd.len() > 0 {
            if !css_valid(ttd) {
                Err(quoted_selector_error(ttd))
            } else {
                let found = element_matches(source, element, ttd);
                if found.len() == 0 {
                    Err(quoted("No :target_text_dom node found: `"@, ttd))
                } else {
                    match element_first_text(source, found[0]) {
                        None => Err(quoted("No :target_text_dom text found: `"@, ttd)),
                        Some(t) => Ok(t),
                    }
                }
            }
        } else {
            Ok(Seq::empty())
        };
        let t1: Result<Seq<char>, Seq<char>> = match t0 {
            Err(m) => Err(m),
            Ok(t) => if tta.len() > 0 {
                match element_attr(source, element, tta) {
                    None => Err(quoted("No :target_text_attr found: `"@, tta)),
                    Some(a) => Ok(a),
                }
            } else {
                Ok(t)
            },
        };
        let t2: Result<Seq<char>, Seq<char>> = match t1 {
            Err(m) => Err(m),
            Ok(t) => if lta.len() > 0 {
                match element_attr(source, element, lta) {
                    None => Err(quoted("No attr found: `"@, lta)),
                    Some(a) => Ok(a),
                }
            } else {
                Ok(t)
            },
        };
        match t2 {
            Err(m) => Err(m),
            Ok(t) => if t.len() == 0 {
                match element_first_text(source, element) {
                    None => Err("No link text found"@),
                    Some(x) => Ok(x),
                }
            } else {
                Ok(t)
            },
        }
    }

    /// The trimmed title and the prefixed address of the link `element`.
    pub open spec fn link_spec(&self, source: Seq<char>, element: usize) -> Result<
        (Seq<char>, Seq<char>),
        Seq<char>,
    > {
        match element_attr(source, element, self.link_attr@) {
            None => Err("No link href found"@),
            Some(u) => {
                let url = if self.link_prefix@.len() > 0 {
                    self.link_prefix@ + u
                } else {
                    u
                };
                match self.title_spec(source, element) {
                    Err(m) => Err(m),
                    Ok(t) => Ok((trimmed(t), url)),
                }
            },
        }
    }

    /// The entry of the parent element `parent`: its link and prefixed
    /// cover address.
    pub open spec fn parent_entry_spec(&self, source: Seq<char>, parent: usize) -> Result<
        Entry,
        Seq<char>,
    > {
        let link_dom = self.link_dom@;
        let cover_dom = self.cover_dom@;
        if !css_valid(link_dom) {
            Err(quoted_selector_error(link_dom))
        } else {
            let links = element_matches(source, parent, link_dom);
            if links.len() == 0 {
                Err(quoted("No link DOM node found: `"@, link_dom))
            } else {
                match self.link_spec(source, links[0]) {
                    Err(m) => Err(m),
                    Ok(l) => if !css_valid(cover_dom) {
                        Err(quoted_selector_error(cover_dom))
                    } else {
                        let covers = element_matches(source, parent, cover_dom);
                        if covers.len() == 0 {
                            Err(quoted("No cover DOM node found: `"@, cover_dom))
                        } else {
                            match element_attr(source, covers[0], self.cover_attr@) {
                                None => Err(quoted("No cover attr found: `"@, self.cover_attr@)),
                                Some(c) => Ok((l.0, l.1, Some(self.cover_prefix@ + c))),
                            }
                        }
                    },
                }
            }
        }
    }

    /// The entry of element `element` of the list.
    pub open spec fn entry_spec(&self, source: Seq<char>, element: usize) -> Result<Entry, Seq<char>> {
        if self.parent_dom@.len() > 0 {
            self.parent_entry_spec(source, element)
        } else {
            match self.link_spec(source, element) {
                Err(m) => Err(m),
                Ok(l) => Ok((l.0, l.1, None)),
            }
        }
    }

    /// The entries of `elements` in order, or the first error.
    pub open spec fn entries_at(&self, source: Seq<char>, elements: Seq<usize>) -> Result<
        Seq<Entry>,
        Seq<char>,
    >
        decreases elements.len(),
    {
        if elements.len() == 0 {
            Ok(Seq::empty())
        } else {
            match self.entry_spec(source, elements[0]) {
                Err(m) => Err(m),
                Ok(e) => prepend_ok(seq![e], self.entries_at(source, elements.drop_first())),
            }
        }
    }

    /// The selector of the list's elements: the parents when set, else the
    /// links.
    pub open spec fn list_selector(&self) -> Seq<char> {
        if self.parent_dom@.len() > 0 {
            self.parent_dom@
        } else {
            self.target_dom@
        }
    }

    /// What the list page gives: every entry, or the first error.
    pub open spec fn entries_spec(&self, source: Seq<char>) -> Result<Seq<Entry>, Seq<char>> {
        let sel = self.list_selector();
        if !css_valid(sel) {
            Err(quoted_selector_error(sel))
        } else {
            self.entries_at(source, doc_matches(source, sel))
        }
    }

    fn title(&self, doc: &Document, element: usize) -> (r: Result<String, Error>)
        ensures
            match self.title_spec(doc.source_view(), element) {
                Ok(t) => r matches Ok(s) && s@ == t,
                Err(m) => r matches Err(e) && e.message@ == m,
            },
    {
        let mut title = String::new();
        if !self.target_text_dom.is_empty() {
            let sel = check_selector(self.target_text_dom)?;
            let found = select_within(doc, element, &sel);
            if found.len() == 0 {
                return Err(quoted_error("No :target_text_dom node found: `", self.target_text_dom));
            }
            title = match first_text(doc, found[0]) {
                Some(t) => t,
                None => {
                    return Err(
                        quoted_error("No :target_text_dom text found: `", self.target_text_dom),
                    );
                },
            };
        }
        if !self.target_text_attr.is_empty() {
            title = match attr(doc, element, self.target_text_attr) {
                Some(t) => t,
                None => {
                    return Err(quoted_error("No :target_text_attr found: `", self.target_text_attr));
                },
            };
        }
        if !self.link_text_attr.is_empty() {
            title = match attr(doc, element, self.link_text_attr) {
                Some(t) => t,
                None => {
                    return Err(quoted_error("No attr found: `", self.link_text_attr));
                },
            };
        }
        if title.as_str().is_empty() {
            title = match first_text(doc, element) {
                Some(t) => t,
                None => {
                    return Err(Error::msg("No link text found"));
                },
            };
        }
        Ok(title)
    }

    fn link(&self, doc: &Document, element: usize) -> (r: Result<(String, String), Error>)
        ensures
            match self.link_spec(doc.source_view(), element) {
                Ok(l) => r matches Ok(p) && p.0@ == l.0 && p.1@ == l.1,
                Err(m) => r matches Err(e) && e.message@ == m,
            },
    {
        let mut url = match attr(doc, element, self.link_attr) {
            Some(u) => u,
            None => {
                return Err(Error::msg("No link href found"));
            },
        };
        if !self.link_prefix.is_empty() {
            url = concat(self.link_prefix, url.as_str());
        }
        let title = self.title(doc, element)?;
        Ok((trim(title.as_str()), url))
    }

    fn parent_entry(&self, doc: &Document, parent: usize) -> (r: Result<
        (String, String, String),
        Error,
    >)
        ensures
            match self.parent_entry_spec(doc.source_view(), parent) {
                Ok(e) => r matches Ok(p) && p.0@ == e.0 && p.1@ == e.1 && e.2 == Some(p.2@),
                Err(m) => r matches Err(e) && e.message@ == m,
            },
    {
        let link_sel = check_selector(self.link_dom)?;
        let links = select_within(doc, parent, &link_sel);
        if links.len() == 0 {
            return Err(quoted_error("No link DOM node found: `", self.link_dom));
        }
        let (title, url) = self.link(doc, links[0])?;
        let cover_sel = check_selector(self.cover_dom)?;
        let covers = select_within(doc, parent, &cover_sel);
        if covers.len() == 0 {
            return Err(quoted_error("No cover DOM node found: `", self.cover_dom));
        }
        let cover = match attr(doc, covers[0], self.cover_attr) {
            Some(c) => c,
            None => {
                return Err(quoted_error("No cover attr found: `", self.cover_attr));
            },
        };
        Ok((title, url, concat(self.cover_prefix, cover.as_str())))
    }

    /// The items of the list page `doc`: one per parent element (a link
    /// and a cover) when `parent_dom` is set, else one per link that
    /// `target_dom` selects.
    pub fn items<T: FromLink + SetCover>(&self, doc: &Document) -> (r: Result<Vec<T>, Error>)
        requires
            self.parent_dom@.len() > 0 || self.target_dom@.len() > 0,
        ensures
            match self.entries_spec(doc.source_view()) {
                Ok(es) => r matches Ok(v) && v@.len() == es.len() && forall|k: int|
                    0 <= k < es.len() ==> item_of(#[trigger] v@[k], es[k]),
                Err(m) => r matches Err(e) && e.message@ == m,
            },
    {
        let with_parents = !self.parent_dom.is_empty();
        let list_dom = if with_parents {
            self.parent_dom
        } else {
            self.target_dom
        };
        let sel = check_selector(list_dom)?;
        let elements = select(doc, &sel);
        let ghost src = doc.source_view();
        let ghost all = elements@;
        let ghost all_spec = self.entries_at(src, all);
        let ghost mut acc: Seq<Entry> = Seq::empty();
        let mut items: Vec<T> = Vec::new();
        let mut i: usize = 0;
        assert(all.skip(0) == all);
        assert(prepend_ok(acc, all_spec) == all_spec) by {
            match all_spec {
                Ok(t) => {
                    assert(acc + t == t);
                },
                Err(_) => {},
            }
        }
        while i < elements.len()
            invariant
                i <= all.len(),
                all == elements@,
                src == doc.source_view(),
                with_parents == (self.parent_dom@.len() > 0),
                css_valid(self.list_selector()),
                all == doc_matches(src, self.list_selector()),
                all_spec == self.entries_at(src, all),
                all_spec == prepend_ok(acc, self.entries_at(src, all.skip(i as int))),
                acc.len() == i,
                items@.len() == i,
                forall|k: int| 0 <= k < i ==> item_of(#[trigger] items@[k], acc[k]),
            decreases all.len() - i,
        {
            let ghost rest = all.skip(i as int);
            assert(rest[0] == all[i as int]);
            assert(rest.drop_first() == all.skip(i + 1));
            let ghost entry: Entry;
            let ghost items_before = items@;
            if with_parents {
                let (title, url, cover) = self.parent_entry(doc, elements[i])?;
                let mut item = T::from_link(title.as_str(), url.as_str());
                let ghost made = item;
                item.set_cover(cover.as_str());
                proof {
                    entry = (title@, url@, Some(cover@));
                    assert(made.made_from_link(entry.0, entry.1) && item.cover_set(made, cover@));
                    assert(item_of(item, entry));
                }
                items.push(item);
            } else {
                let (title, url) = self.link(doc, elements[i])?;
                let item = T::from_link(title.as_str(), url.as_str());
                proof {
                    entry = (title@, url@, None);
                    assert(item_of(item, entry));
                }
                items.push(item);
            }
            proof {
                match self.entries_at(src, all.skip(i + 1)) {
                    Ok(r) => {
                        assert(acc + (seq![entry] + r) =~= acc.push(entry) + r);
                    },
                    Err(_) => {},
                }
                let acc_before = acc;
                acc = acc.push(entry);
                assert forall|k: int| 0 <= k < i + 1 implies item_of(#[trigger] items@[k], acc[k]) by {
                    if k < i {
                        assert(items@[k] == items_before[k]);
                        assert(acc[k] == acc_before[k]);
                    }
                }
            }
            i = i + 1;
        }
        proof {
            assert(all.skip(all.len() as int) =~= Seq::<usize>::empty());
            assert(acc + Seq::<Entry>::empty() =~= acc);
        }
        Ok(items)
    }
}

} // verus!
