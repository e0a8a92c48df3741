//! Extraction helpers of the index pages: the first text of a selection,
//! untrimmed attribute lists, links inside list entries, and building one
//! item from each selected element.
use vstd::prelude::*;
use crate::dom::{
    attr, css_valid, doc_matches, element_attr, element_first_text, element_matches, first_text,
    parse_selector, prepend_ok, select, select_within, strings_result, CssSelector, Document,
};
use crate::error::Error;
use crate::text::{push_str, trim, trimmed};

verus! {

/// The message of a selector that does not parse, as the index helpers
/// word it.
pub open spec fn quoted_selector_error(selector: Seq<char>) -> Seq<char> {
    "The selector '"@ + selector + "' parsing failed"@
}

/// Checks that `selector` parses, with the index helpers' message.
pub fn check_selector(selector: &str) -> (r: Result<CssSelector, Error>)
    ensures
        match r {
            Ok(s) => css_valid(selector@) && s.text_view() == selector@,
            Err(e) => !css_valid(selector@) && e.message@ == quoted_selector_error(selector@),
        },
{
    match parse_selector(selector) {
        Ok(s) => Ok(s),
        Err(_) => {
            let mut m = String::from_str("The selector '");
            push_str(&mut m, selector);
            push_str(&mut m, "' parsing failed");
            Err(Error { message: m })
        },
    }
}

/// The values, untrimmed, of attribute `name` of `elements`, or the error
/// for the first that lacks it.
pub open spec fn raw_attrs_of(
    source: Seq<char>,
    elements: Seq<usize>,
    selector: Seq<char>,
    name: Seq<char>,
) -> Result<Seq<Seq<char>>, Seq<char>>
    decreases elements.len(),
{
    if elements.len() == 0 {
        Ok(Seq::empty())
    } else {
        match element_attr(source, elements[0], name) {
            None => Err("Attribute `"@ + name + "` not found in `"@ + selector + "`"@),
            Some(t) => prepend_ok(seq![t], raw_attrs_of(source, elements.drop_first(), selector, name)),
        }
    }
}

/// First-match text and raw attribute queries, as the index pages use them.
pub trait HtmlHelper {
    /// The trimmed first text of the first element `selector` matches.
    spec fn first_text_spec(&self, selector: Seq<char>) -> Result<Seq<char>, Seq<char>>;

    /// The values, untrimmed, of attribute `attr` of the elements that
    /// `selector` matches.
    spec fn raw_attrs_spec(&self, selector: Seq<char>, attr: Seq<char>) -> Result<Seq<Seq<char>>, Seq<char>>;

    fn dom_text(&self, selector: &str) -> (r: Result<String, Error>)
        ensures
            match self.first_text_spec(selector@) {
                Ok(t) => r matches Ok(s) && s@ == t,
                Err(m) => r matches Err(e) && e.message@ == m,
            },
    ;

    fn dom_attrs(&self, selector: &str, attr: &str) -> (r: Result<Vec<String>, Error>)
        ensures
            strings_result(r, self.raw_attrs_spec(selector@, attr@)),
    ;

    /// The first of `dom_attrs`, or an error when nothing matches.
    fn dom_attr(&self, selector: &str, attr: &str) -> (r: Result<String, Error>)
        ensures
            crate::dom::first_of(r, self.raw_attrs_spec(selector@, attr@), selector@),
    {
        let attrs = self.dom_attrs(selector, attr)?;
        if attrs.len() == 0 {
            let mut m = String::from_str("DOM node not found: ");
            push_str(&mut m, selector);
            Err(Error { message: m })
        } else {
            Ok(attrs[0].clone())
        }
    }
}

impl HtmlHelper for Document {
    open spec fn first_text_spec(&self, selector: Seq<char>) -> Result<Seq<char>, Seq<char>> {
        if !css_valid(selector) {
            Err(quoted_selector_error(selector))
        } else {
            let found = doc_matches(self.source_view(), selector);
            if found.len() == 0 {
                Err("DOM node not found: "@ + selector)
            } else {
                match element_first_text(self.source_view(), found[0]) {
                    None => Err("DOM text not found: "@ + selector),
                    Some(t) => Ok(trimmed(t)),
                }
            }
        }
    }

    open spec fn raw_attrs_spec(&self, selector: Seq<char>, attr: Seq<char>) -> Result<Seq<Seq<char>>, Seq<char>> {
        if !css_valid(selector) {
            Err(quoted_selector_error(selector))
        } else {
            raw_attrs_of(self.source_view(), doc_matches(self.source_view(), selector), selector, attr)
        }
    }

    fn dom_text(&self, selector: &str) -> (r: Result<String, Error>) {
        let st = check_selector(selector)?;
        let found = select(self, &st);
        if found.len() == 0 {
            let mut m = String::from_str("DOM node not found: ");
            push_str(&mut m, selector);
            return Err(Error { message: m });
        }
        match first_text(self, found[0]) {
            None => {
                let mut m = String::from_str("DOM text not found: ");
                push_str(&mut m, selector);
                Err(Error { message: m })
            },
            Some(t) => Ok(trim(t.as_str())),
        }
    }

    fn dom_attrs(&self, selector: &str, attr_name: &str) -> (r: Result<Vec<String>, Error>) {
        let sel = check_selector(selector)?;
        let elements = select(self, &sel);
        let ghost src = self.source_view();
        let ghost all = elements@;
        let mut values: Vec<String> = Vec::new();
        let mut i: usize = 0;
        assert(all.skip(0) == all);
        assert(prepend_ok(Seq::<Seq<char>>::empty(), raw_attrs_of(src, all, selector@, attr_name@))
            == raw_attrs_of(src, all, selector@, attr_name@)) by {
            match raw_attrs_of(src, all, selector@, attr_name@) {
                Ok(t) => {
                    assert(Seq::<Seq<char>>::empty() + t == t);
                },
                Err(_) => {},
            }
        }
        while i < elements.len()
            invariant
                i <= all.len(),
                all == elements@,
                src == self.source_view(),
                css_valid(selector@),
                all == doc_matches(src, selector@),
                raw_attrs_of(src, all, selector@, attr_name@) == prepend_ok(
                    values@.map_values(|x: String| x@),
                    raw_attrs_of(src, all.skip(i as int), selector@, attr_name@),
                ),
            decreases all.len() - i,
        {
            let ghost rest = all.skip(i as int);
            assert(rest[0] == all[i as int]);
            assert(rest.drop_first() == all.skip(i + 1));
            let ghost before = values@.map_values(|x: String| x@);
            match attr(self, elements[i], attr_name) {
                None => {
                    let mut m = String::from_str("Attribute `");
                    push_str(&mut m, attr_name);
                    push_str(&mut m, "` not found in `");
                    push_str(&mut m, selector);
                    push_str(&mut m, "`");
                    proof {
                        assert(raw_attrs_of(src, rest, selector@, attr_name@) == Err::<
                            Seq<Seq<char>>,
                            Seq<char>,
                        >("Attribute `"@ + attr_name@ + "` not found in `"@ + selector@ + "`"@));
                    }
                    return Err(Error { message: m });
                },
                Some(t) => {
                    let ghost tv = t@;
                    values.push(t);
                    proof {
                        assert(values@.map_values(|x: String| x@) =~= before + seq![tv]);
                        match raw_attrs_of(src, all.skip(i + 1), selector@, attr_name@) {
                            Ok(r) => {
                                assert(before + (seq![tv] + r) =~= before + seq![tv] + r);
                            },
                            Err(_) => {},
                        }
                    }
                },
            }
            i = i + 1;
        }
        proof {
            assert(all.skip(all.len() as int) =~= Seq::<usize>::empty());
            assert(values@.map_values(|x: String| x@) + Seq::<Seq<char>>::empty() =~= values@.map_values(
                |x: String| x@,
            ));
        }
        Ok(values)
    }
}

/// The (title, address) of the link inside `element` that `selector`
/// selects first: its first text and its `href`, untrimmed.
pub open spec fn link_spec(source: Seq<char>, element: usize, selector: Seq<char>) -> Result<
    (Seq<char>, Seq<char>),
    Seq<char>,
> {
    if !css_valid(selector) {
        Err(quoted_selector_error(selector))
    } else {
        let found = element_matches(source, element, selector);
        if found.len() == 0 {
            Err("No link found"@)
        } else {
            match element_first_text(source, found[0]) {
                None => Err("No title found"@),
                Some(title) => match element_attr(source, found[0], "href"@) {
                    None => Err("No href found"@),
                    Some(url) => Ok((title, url)),
                },
            }
        }
    }
}

/// The title and address of the first link that `selector` selects inside
/// `element`.
pub fn simple_parse_link(doc: &Document, element: usize, selector: &str) -> (r: Result<
    (String, String),
    Error,
>)
    ensures
        match link_spec(doc.source_view(), element, selector@) {
            Ok(l) => r matches Ok(p) && p.0@ == l.0 && p.1@ == l.1,
            Err(m) => r matches Err(e) && e.message@ == m,
        },
{
    let sel = check_selector(selector)?;
    let found = select_within(doc, element, &sel);
    if found.len() == 0 {
        return Err(Error::msg("No link found"));
    }
    let title = match first_text(doc, found[0]) {
        Some(t) => t,
        None => {
            return Err(Error::msg("No title found"));
        },
    };
    let href = "href";
    let url = match attr(doc, found[0], href) {
        Some(u) => u,
        None => {
            return Err(Error::msg("No href found"));
        },
    };
    Ok((title, url))
}

/// `parse_elem` can build an item from element `element`.
pub open spec fn builds_item<T, F: Fn(usize) -> Result<T, Error>>(parse_elem: F, element: usize) -> bool {
    exists|t: T| parse_elem.ensures((element,), Ok::<T, Error>(t))
}

/// One item for each element of `document` that `selector` selects, built
/// by `parse_elem`; stops at the first element it fails on.
pub fn simple_fetch_index<T, F: Fn(usize) -> Result<T, Error>>(
    document: &Document,
    selector: &str,
    parse_elem: F,
) -> (r: Result<Vec<T>, Error>)
    requires
        forall|e: usize| parse_elem.requires((e,)),
    ensures
        match r {
            Ok(v) => css_valid(selector@) && v@.len() == doc_matches(
                document.source_view(),
                selector@,
            ).len() && forall|k: int|
                0 <= k < v@.len() ==> parse_elem.ensures(
                    (doc_matches(document.source_view(), selector@)[k],),
                    Ok::<T, Error>(#[trigger] v@[k]),
                ),
            Err(e) => (!css_valid(selector@) && e.message@ == quoted_selector_error(selector@)) || (
            css_valid(selector@) && exists|k: int|
                0 <= k < doc_matches(document.source_view(), selector@).len()
                    && parse_elem.ensures(
                    (#[trigger] doc_matches(document.source_view(), selector@)[k],),
                    Err::<T, Error>(e),
                ) && forall|j: int|
                    0 <= j < k ==> builds_item(
                        parse_elem,
                        #[trigger] doc_matches(document.source_view(), selector@)[j],
                    )),
        },
{
    let sel = check_selector(selector)?;
    let elements = select(document, &sel);
    let mut list: Vec<T> = Vec::new();
    let mut i: usize = 0;
    while i < elements.len()
        invariant
            i <= elements@.len(),
            elements@ == doc_matches(document.source_view(), selector@),
            css_valid(selector@),
            list@.len() == i,
            forall|e: usize| parse_elem.requires((e,)),
            forall|k: int|
                0 <= k < i ==> parse_elem.ensures((elements@[k],), Ok::<T, Error>(#[trigger] list@[k])),
        decreases elements@.len() - i,
    {
        let item = parse_elem(elements[i]);
        match item {
            Ok(t) => {
                list.push(t);
            },
            Err(e) => {
                assert(parse_elem.ensures((elements@[i as int],), Err::<T, Error>(e)));
                let ghost m = doc_matches(document.source_view(), selector@);
                assert forall|j: int| 0 <= j < i implies builds_item(parse_elem, #[trigger] m[j]) by {
                    assert(parse_elem.ensures((m[j],), Ok::<T, Error>(list@[j])));
                }
                assert(parse_elem.ensures((m[i as int],), Err::<T, Error>(e)));
                return Err(e);
            },
        }
        i = i + 1;
    }
    Ok(list)
}

} // verus!
