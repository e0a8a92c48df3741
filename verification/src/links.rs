//! Reading a list of links from an index or chapter page, the way the
//! older sources describe it: either every element that `target` selects
//! is a link, or inside every element that `selector` selects the first
//! match of `find` is. A link's title is its text, or the text of an
//! element inside it, or one of its attributes.
use vstd::prelude::*;
use crate::dom::{
    attr, css_valid, doc_matches, element_attr, element_first_text, element_matches, first_text,
    prepend_ok, select, select_within, Document,
};
use crate::error::Error;
use crate::extract::{check_selector, quoted_selector_error};
use crate::listing::{quoted, quoted_error};
use crate::models::FromLink;
use crate::text::{concat, trim, trimmed};

verus! {

/// Where the links of a list page are and how to read them.
pub struct LinkQuery<'a> {
    /// Selects the elements that hold a link (when `target` is not set).
    pub selector: &'a str,
    /// Selects the link inside such an element.
    pub find: &'a str,
    /// Put in front of every link address.
    pub href_prefix: &'a str,
    /// Selects, inside a link, the element whose text is the title.
    pub sub_dom_text: Option<&'a str>,
    /// The link attribute that holds the title.
    pub text_attr: Option<&'a str>,
    /// Selects the links themselves.
    pub target: Option<&'a str>,
}

/// The message for an element without the link that `find` selects.
pub open spec fn no_find_message(find: Seq<char>) -> Seq<char> {
    "No :find found: "@ + find
}

impl<'a> LinkQuery<'a> {
    /// A query with the defaults: links found with `a`, nothing else set.
    pub fn new() -> (r: LinkQuery<'static>)
        ensures
            r.selector@.len() == 0,
            r.find@ == "a"@,
            r.href_prefix@.len() == 0,
            r.sub_dom_text is None,
            r.text_attr is None,
            r.target is None,
    {
        proof {
            reveal_strlit("");
        }
        LinkQuery {
            selector: "",
            find: "a",
            href_prefix: "",
            sub_dom_text: None,
            text_attr: None,
            target: None,
        }
    }

    /// The title of `link` before trimming: the text of its `sub_dom_text`
    /// element, replaced by its `text_attr` attribute when that is set; the
    /// link's own text when both give nothing.
    pub open spec fn title_spec(&self, source: Seq<char>, link: usize) -> Result<
        Seq<char>,
        Seq<char>,
    > {
        let t0: Result<Seq<char>, Seq<char>> = match self.sub_dom_text {
            None => Ok(Seq::empty()),
            Some(s) => if !css_valid(s@) {
                Err(quoted_selector_error(s@))
            } else {
                let found = element_matches(source, link, s@);
                if found.len() == 0 {
                    Err(quoted("No :sub_dom_text node found: `"@, s@))
                } else {
                    match element_first_text(source, found[0]) {
                        None => Err(quoted("No :sub_dom_text text found: `"@, s@)),
                        Some(t) => Ok(t),
                    }
                }
            },
        };
        let t1: Result<Seq<char>, Seq<char>> = match t0 {
            Err(m) => Err(m),
            Ok(t) => match self.text_attr {
                None => Ok(t),
                Some(a) => match element_attr(source, link, a@) {
                    None => Err(quoted("No :text_attr found: `"@, a@)),
                    Some(x) => Ok(x),
                },
            },
        };
        match t1 {
            Err(m) => Err(m),
            Ok(t) => if t.len() == 0 {
                match element_first_text(source, link) {
                    None => Err("No link text found"@),
                    Some(x) => Ok(x),
                }
            } else {
                Ok(t)
            },
        }
    }

    /// The trimmed title and the prefixed `href` of `link`.
    pub open spec fn link_spec(&self, source: Seq<char>, link: usize) -> Result<
        (Seq<char>, Seq<char>),
        Seq<char>,
    > {
        match element_attr(source, link, "href"@) {
            None => Err("No link href found"@),
            Some(u) => {
                let url = if self.href_prefix@.len() > 0 {
                    self.href_prefix@ + u
                } else {
                    u
                };
                match self.title_spec(source, link) {
                    Err(m) => Err(m),
                    Ok(t) => Ok((trimmed(t), url)),
                }
            },
        }
    }

    /// The link read from element `element` of the list.
    pub open spec fn entry_spec(&self, source: Seq<char>, element: usize) -> Result<
        (Seq<char>, Seq<char>),
        Seq<char>,
    > {
        match self.target {
            Some(_) => self.link_spec(source, element),
            None => if !css_valid(self.find@) {
                Err(quoted_selector_error(self.find@))
            } else {
                let found = element_matches(source, element, self.find@);
                if found.len() == 0 {
                    Err(no_find_message(self.find@))
                } else {
                    self.link_spec(source, found[0])
                }
            },
        }
    }

    /// The links of `elements` in order, or the first error.
    pub open spec fn links_at(&self, source: Seq<char>, elements: Seq<usize>) -> Result<
        Seq<(Seq<char>, Seq<char>)>,
        Seq<char>,
    >
        decreases elements.len(),
    {
        if elements.len() == 0 {
            Ok(Seq::empty())
        } else {
            match self.entry_spec(source, elements[0]) {
                Err(m) => Err(m),
                Ok(l) => prepend_ok(seq![l], self.links_at(source, elements.drop_first())),
            }
        }
    }

    /// The selector of the list's elements: `target` when set, else
    /// `selector`.
    pub open spec fn list_selector(&self) -> Seq<char> {
        match self.target {
            Some(t) => t@,
            None => self.selector@,
        }
    }

    /// What the list page gives: every link, or the first error.
    pub open spec fn links_spec(&self, source: Seq<char>) -> Result<
        Seq<(Seq<char>, Seq<char>)>,
        Seq<char>,
    > {
        let sel = self.list_selector();
        if !css_valid(sel) {
            Err(quoted_selector_error(sel))
        } else {
            self.links_at(source, doc_matches(source, sel))
        }
    }

    fn title(&self, doc: &Document, link: usize) -> (r: Result<String, Error>)
        ensures
            match self.title_spec(doc.source_view(), link) {
                Ok(t) => r matches Ok(s) && s@ == t,
                Err(m) => r matches Err(e) && e.message@ == m,
            },
    {
        let mut title = String::new();
        if let Some(s) = self.sub_dom_text {
            let sel = check_selector(s)?;
            let found = select_within(doc, link, &sel);
            if found.len() == 0 {
                return Err(quoted_error("No :sub_dom_text node found: `", s));
            }
            title = match first_text(doc, found[0]) {
                Some(t) => t,
                None => {
                    return Err(quoted_error("No :sub_dom_text text found: `", s));
                },
            };
        }
        if let Some(a) = self.text_attr {
            title = match attr(doc, link, a) {
                Some(t) => t,
                None => {
                    return Err(quoted_error("No :text_attr found: `", a));
                },
            };
        }
        if title.as_str().is_empty() {
            title = match first_text(doc, link) {
                Some(t) => t,
                None => {
                    return Err(Error::msg("No link text found"));
                },
            };
        }
        Ok(title)
    }

    fn link(&self, doc: &Document, link: usize) -> (r: Result<(String, String), Error>)
        ensures
            match self.link_spec(doc.source_view(), link) {
                Ok(l) => r matches Ok(p) && p.0@ == l.0 && p.1@ == l.1,
                Err(m) => r matches Err(e) && e.message@ == m,
            },
    {
        let href = "href";
        proof {
            reveal_strlit("href");
        }
        let mut url = match attr(doc, link, href) {
            Some(u) => u,
            None => {
                return Err(Error::msg("No link href found"));
            },
        };
        if !self.href_prefix.is_empty() {
            url = concat(self.href_prefix, url.as_str());
        }
        let title = self.title(doc, link)?;
        Ok((trim(title.as_str()), url))
    }

    fn entry(&self, doc: &Document, element: usize) -> (r: Result<(String, String), Error>)
        ensures
            match self.entry_spec(doc.source_view(), element) {
                Ok(l) => r matches Ok(p) && p.0@ == l.0 && p.1@ == l.1,
                Err(m) => r matches Err(e) && e.message@ == m,
            },
    {
        if self.target.is_some() {
            return self.link(doc, element);
        }
        let sel = check_selector(self.find)?;
        let found = select_within(doc, element, &sel);
        if found.len() == 0 {
            let mut m = String::from_str("No :find found: ");
            crate::text::push_str(&mut m, self.find);
            return Err(Error { message: m });
        }
        self.link(doc, found[0])
    }

    /// The items of the list page `doc`, one per link, each made from the
    /// link's trimmed title and prefixed address.
    pub fn items<T: FromLink>(&self, doc: &Document) -> (r: Result<Vec<T>, Error>)
        ensures
            match self.links_spec(doc.source_view()) {
                Ok(ls) => r matches Ok(v) && v@.len() == ls.len() && forall|k: int|
                    0 <= k < ls.len() ==> (#[trigger] v@[k]).made_from_link(ls[k].0, ls[k].1),
                Err(m) => r matches Err(e) && e.message@ == m,
            },
    {
        let list_dom = match self.target {
            Some(t) => t,
            None => self.selector,
        };
        let sel = check_selector(list_dom)?;
        let elements = select(doc, &sel);
        let ghost src = doc.source_view();
        let ghost all = elements@;
        let ghost all_spec = self.links_at(src, all);
        let ghost mut acc: Seq<(Seq<char>, Seq<char>)> = Seq::empty();
        let mut items: Vec<T> = Vec::new();
        let mut i: usize = 0;
        assert(all.skip(0) == all);
        assert(prepend_ok(acc, all_spec) == all_spec) by {
            match all_spec {
                Ok(t) => {
                    assert(acc + t == t);
                },
                Err(_) => {},
            }
        }
        while i < elements.len()
            invariant
                i <= all.len(),
                all == elements@,
                src == doc.source_view(),
                css_valid(self.list_selector()),
                all == doc_matches(src, self.list_selector()),
                all_spec == self.links_at(src, all),
                all_spec == prepend_ok(acc, self.links_at(src, all.skip(i as int))),
                acc.len() == i,
                items@.len() == i,
                forall|k: int|
                    0 <= k < i ==> (#[trigger] items@[k]).made_from_link(acc[k].0, acc[k].1),
            decreases all.len() - i,
        {
            let ghost rest = all.skip(i as int);
            assert(rest[0] == all[i as int]);
            assert(rest.drop_first() == all.skip(i + 1));
            let ghost items_before = items@;
            let (title, url) = self.entry(doc, elements[i])?;
            let item = T::from_link(title.as_str(), url.as_str());
            items.push(item);
            proof {
                let entry = (title@, url@);
                match self.links_at(src, all.skip(i + 1)) {
                    Ok(r) => {
                        assert(acc + (seq![entry] + r) =~= acc.push(entry) + r);
                    },
                    Err(_) => {},
                }
                let acc_before = acc;
                acc = acc.push(entry);
                assert forall|k: int| 0 <= k < i + 1 implies (#[trigger] items@[k]).made_from_link(
                    acc[k].0,
                    acc[k].1,
                ) by {
                    if k < i {
                        assert(items@[k] == items_before[k]);
                        assert(acc[k] == acc_before[k]);
                    }
                }
            }
            i = i + 1;
        }
        proof {
            assert(all.skip(all.len() as int) =~= Seq::<usize>::empty());
            assert(acc + Seq::<(Seq<char>, Seq<char>)>::empty() =~= acc);
        }
        Ok(items)
    }
}

} // verus!
