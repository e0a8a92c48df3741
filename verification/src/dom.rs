//! Queries on fetched HTML documents: selecting elements with CSS selectors
//! and reading their first text and their attributes. Parsing HTML and
//! matching selectors are the `scraper` crate's; the library addresses an
//! element by its position in the parsed document's node list, a plain
//! number, so that every query is a function of the document's source text,
//! the element positions and the selector text.
use vstd::prelude::*;
use crate::error::Error;
use crate::text::{push_str, trim, trimmed};

verus! {

/// `scraper::Html`, a parsed document, carried opaquely inside `Document`.
#[verifier::external_type_specification]
#[verifier::external_body]
pub struct ExHtml(scraper::Html);

/// Whether `selectors` is a selector list that `scraper::Selector::parse`
/// accepts.
pub uninterp spec fn css_valid(selectors: Seq<char>) -> bool;

/// Positions of the elements of the document parsed from `source` that
/// `selectors` matches, in the order `scraper::Html::select` yields them.
pub uninterp spec fn doc_matches(source: Seq<char>, selectors: Seq<char>) -> Seq<usize>;

/// Positions of the descendants of element `element` that `selectors`
/// matches, in the order `scraper::ElementRef::select` yields them.
pub uninterp spec fn element_matches(source: Seq<char>, element: usize, selectors: Seq<char>) -> Seq<
    usize,
>;

/// The first text node under element `element`
/// (`ElementRef::text().next()`).
pub uninterp spec fn element_first_text(source: Seq<char>, element: usize) -> Option<Seq<char>>;

/// The value of attribute `name` of element `element`
/// (`Element::attr`).
pub uninterp spec fn element_attr(source: Seq<char>, element: usize, name: Seq<char>) -> Option<
    Seq<char>,
>;

/// A parsed HTML document together with the text it was parsed from.
pub struct Document {
    source: String,
    parsed: scraper::Html,
}

impl Document {
    /// The text the document was parsed from.
    pub closed spec fn source_view(&self) -> Seq<char> {
        self.source@
    }
}

/// Parses an HTML document (`scraper::Html::parse_document`). The parsed
/// tree is kept beside its source text; both fields are private and set
/// together only here, so the queries below, which read the tree, are
/// stated over the source.
#[verifier::external_body]
pub fn parse_document(html: &str) -> (r: Document)
    ensures
        r.source_view() == html@,
{
    Document { source: html.to_string(), parsed: scraper::Html::parse_document(html) }
}

/// Parses `selectors` as a CSS selector list (`scraper::Selector::parse`);
/// `None` when it does not parse.
#[verifier::external_body]
fn compile_selector(selectors: &str) -> (r: Option<CssSelector>)
    ensures
        r is Some <==> css_valid(selectors@),
        r matches Some(s) ==> s.text_view() == selectors@,
{
    match scraper::Selector::parse(selectors) {
        Ok(compiled) => Some(CssSelector { text: selectors.to_string(), compiled }),
        Err(_) => None,
    }
}

/// Selects matching elements in the whole document (`Html::select`),
/// giving their positions in the document's node list.
#[verifier::external_body]
fn select_in_document(doc: &Document, sel: &CssSelector) -> (r: Vec<usize>)
    ensures
        r@ == doc_matches(doc.source_view(), sel.text_view()),
{
    let nodes = || doc.parsed.tree.nodes();
    doc.parsed.select(&sel.compiled).map(|e| nodes().position(|n| n.id() == e.id()).unwrap()).collect()
}

/// Selects matching descendants of the element at `element`
/// (`ElementRef::select`), giving their positions.
#[verifier::external_body]
fn select_in_element(doc: &Document, element: usize, sel: &CssSelector) -> (r: Vec<usize>)
    ensures
        r@ == element_matches(doc.source_view(), element, sel.text_view()),
{
    let nodes = || doc.parsed.tree.nodes();
    let scope = nodes().nth(element).and_then(scraper::ElementRef::wrap);
    let found = scope.into_iter().flat_map(|el| el.select(&sel.compiled).collect::<Vec<_>>());
    found.map(|e| nodes().position(|n| n.id() == e.id()).unwrap()).collect()
}

/// The first text node under the element at `element`
/// (`ElementRef::text().next()`).
#[verifier::external_body]
fn text_of(doc: &Document, element: usize) -> (r: Option<String>)
    ensures
        match element_first_text(doc.source_view(), element) {
            Some(t) => r matches Some(s) && s@ == t,
            None => r is None,
        },
{
    let scope = doc.parsed.tree.nodes().nth(element).and_then(scraper::ElementRef::wrap);
    scope.and_then(|el| el.text().next().map(|t| t.to_string()))
}

/// The value of attribute `name` of the element at `element`
/// (`Element::attr`).
#[verifier::external_body]
fn attr_of(doc: &Document, element: usize, name: &str) -> (r: Option<String>)
    ensures
        match element_attr(doc.source_view(), element, name@) {
            Some(t) => r matches Some(s) && s@ == t,
            None => r is None,
        },
{
    let scope = doc.parsed.tree.nodes().nth(element).and_then(scraper::ElementRef::wrap);
    scope.and_then(|el| el.value().attr(name).map(|t| t.to_string()))
}

/// `scraper::Selector`, a parsed selector list, carried opaquely inside
/// `CssSelector`.
#[verifier::external_type_specification]
#[verifier::external_body]
pub struct ExSelector(scraper::Selector);

/// A parsed CSS selector list, kept beside its text. Both fields are
/// private and set together only by `compile_selector`.
#[derive(Debug)]
pub struct CssSelector {
    text: String,
    compiled: scraper::Selector,
}

impl CssSelector {
    #[verifier::type_invariant]
    spec fn parses(self) -> bool {
        css_valid(self.text@)
    }

    /// The selector text.
    pub closed spec fn text_view(&self) -> Seq<char> {
        self.text@
    }
}

/// The message of a selector that does not parse.
pub open spec fn selector_error(selectors: Seq<char>) -> Seq<char> {
    "The selectors `"@ + selectors + "` parsing failed"@
}

/// Checks that `selectors` parses as a CSS selector list.
pub fn parse_selector(selectors: &str) -> (r: Result<CssSelector, Error>)
    ensures
        match r {
            Ok(s) => css_valid(selectors@) && s.text_view() == selectors@,
            Err(e) => !css_valid(selectors@) && e.message@ == selector_error(selectors@),
        },
{
    if let Some(s) = compile_selector(selectors) {
        Ok(s)
    } else {
        let mut m = String::from_str("The selectors `");
        push_str(&mut m, selectors);
        push_str(&mut m, "` parsing failed");
        Err(Error { message: m })
    }
}

/// The elements of `doc` that `sel` matches.
pub fn select(doc: &Document, sel: &CssSelector) -> (r: Vec<usize>)
    ensures
        r@ == doc_matches(doc.source_view(), sel.text_view()),
{
    proof {
        use_type_invariant(sel);
    }
    select_in_document(doc, sel)
}

/// The descendants of `element` that `sel` matches.
pub fn select_within(doc: &Document, element: usize, sel: &CssSelector) -> (r: Vec<usize>)
    ensures
        r@ == element_matches(doc.source_view(), element, sel.text_view()),
{
    proof {
        use_type_invariant(sel);
    }
    select_in_element(doc, element, sel)
}

/// The first text node under `element`.
pub fn first_text(doc: &Document, element: usize) -> (r: Option<String>)
    ensures
        match element_first_text(doc.source_view(), element) {
            Some(t) => r matches Some(s) && s@ == t,
            None => r is None,
        },
{
    text_of(doc, element)
}

/// The value of attribute `name` of `element`.
pub fn attr(doc: &Document, element: usize, name: &str) -> (r: Option<String>)
    ensures
        match element_attr(doc.source_view(), element, name@) {
            Some(t) => r matches Some(s) && s@ == t,
            None => r is None,
        },
{
    attr_of(doc, element, name)
}

/// `acc` put in front of the list in `rest`, or the error of `rest`.
pub open spec fn prepend_ok<A>(acc: Seq<A>, rest: Result<Seq<A>, Seq<char>>) -> Result<
    Seq<A>,
    Seq<char>,
> {
    match rest {
        Ok(r) => Ok(acc + r),
        Err(m) => Err(m),
    }
}

/// `r` is the list of strings or the error message that `s` describes.
pub open spec fn strings_result(r: Result<Vec<String>, Error>, s: Result<Seq<Seq<char>>, Seq<char>>) -> bool {
    match s {
        Ok(ts) => r matches Ok(v) && v@.map_values(|x: String| x@) == ts,
        Err(m) => r matches Err(e) && e.message@ == m,
    }
}

/// The trimmed first texts of `elements`, or the error for the first that
/// has no text.
pub open spec fn texts_of(source: Seq<char>, elements: Seq<usize>, selector: Seq<char>) -> Result<
    Seq<Seq<char>>,
    Seq<char>,
>
    decreases elements.len(),
{
    if elements.len() == 0 {
        Ok(Seq::empty())
    } else {
        match element_first_text(source, elements[0]) {
            None => Err("Text not found in `"@ + selector + "`"@),
            Some(t) => prepend_ok(
                seq![trimmed(t)],
                texts_of(source, elements.drop_first(), selector),
            ),
        }
    }
}

/// The trimmed values of attribute `name` of `elements`, or the error for
/// the first that lacks it.
pub open spec fn attrs_of(
    source: Seq<char>,
    elements: Seq<usize>,
    selector: Seq<char>,
    name: Seq<char>,
) -> Result<Seq<Seq<char>>, Seq<char>>
    decreases elements.len(),
{
    if elements.len() == 0 {
        Ok(Seq::empty())
    } else {
        match element_attr(source, elements[0], name) {
            None => Err("Attribute `"@ + name + "` not found in `"@ + selector + "`"@),
            Some(t) => prepend_ok(
                seq![trimmed(t)],
                attrs_of(source, elements.drop_first(), selector, name),
            ),
        }
    }
}

/// The message for a selector that matched nothing.
pub open spec fn not_found_error(selector: Seq<char>) -> Seq<char> {
    "DOM node not found: "@ + selector
}

/// The first string of a list result, or the not-found error when the list
/// is empty.
pub open spec fn first_of(
    r: Result<String, Error>,
    s: Result<Seq<Seq<char>>, Seq<char>>,
    selector: Seq<char>,
) -> bool {
    match s {
        Err(m) => r matches Err(e) && e.message@ == m,
        Ok(ts) => if ts.len() == 0 {
            r matches Err(e) && e.message@ == not_found_error(selector)
        } else {
            r matches Ok(v) && v@ == ts[0]
        },
    }
}

/// Text and attribute queries on a document.
pub trait HtmlExt {
    /// The first texts, trimmed, of the elements that `selector` matches.
    spec fn texts_spec(&self, selector: Seq<char>) -> Result<Seq<Seq<char>>, Seq<char>>;

    /// The values, trimmed, of attribute `attr` of the elements that
    /// `selector` matches.
    spec fn attrs_spec(&self, selector: Seq<char>, attr: Seq<char>) -> Result<Seq<Seq<char>>, Seq<char>>;

    /// How many elements `selector` matches.
    spec fn count_spec(&self, selector: Seq<char>) -> Result<nat, Seq<char>>;

    fn dom_texts(&self, selector: &str) -> (r: Result<Vec<String>, Error>)
        ensures
            strings_result(r, self.texts_spec(selector@)),
    ;

    /// The first of `dom_texts`, or an error when nothing matches.
    fn dom_text(&self, selector: &str) -> (r: Result<String, Error>)
        ensures
            first_of(r, self.texts_spec(selector@), selector@),
    {
        let texts = self.dom_texts(selector)?;
        if texts.len() == 0 {
            let mut m = String::from_str("DOM node not found: ");
            push_str(&mut m, selector);
            Err(Error { message: m })
        } else {
            Ok(texts[0].clone())
        }
    }

    fn dom_attrs(&self, selector: &str, attr: &str) -> (r: Result<Vec<String>, Error>)
        ensures
            strings_result(r, self.attrs_spec(selector@, attr@)),
    ;

    /// The first of `dom_attrs`, or an error when nothing matches.
    fn dom_attr(&self, selector: &str, attr: &str) -> (r: Result<String, Error>)
        ensures
            first_of(r, self.attrs_spec(selector@, attr@), selector@),
    {
        let attrs = self.dom_attrs(selector, attr)?;
        if attrs.len() == 0 {
            let mut m = String::from_str("DOM node not found: ");
            push_str(&mut m, selector);
            Err(Error { message: m })
        } else {
            Ok(attrs[0].clone())
        }
    }

    fn dom_count(&self, selector: &str) -> (r: Result<usize, Error>)
        ensures
            match self.count_spec(selector@) {
                Ok(n) => r == Ok::<usize, Error>(n as usize),
                Err(m) => r matches Err(e) && e.message@ == m,
            },
    ;
}

impl HtmlExt for Document {
    open spec fn texts_spec(&self, selector: Seq<char>) -> Result<Seq<Seq<char>>, Seq<char>> {
        if css_valid(selector) {
            texts_of(self.source_view(), doc_matches(self.source_view(), selector), selector)
        } else {
            Err(selector_error(selector))
        }
    }

    open spec fn attrs_spec(&self, selector: Seq<char>, attr: Seq<char>) -> Result<Seq<Seq<char>>, Seq<char>> {
        if css_valid(selector) {
            attrs_of(self.source_view(), doc_matches(self.source_view(), selector), selector, attr)
        } else {
            Err(selector_error(selector))
        }
    }

    open spec fn count_spec(&self, selector: Seq<char>) -> Result<nat, Seq<char>> {
        if css_valid(selector) {
            Ok(doc_matches(self.source_view(), selector).len())
        } else {
            Err(selector_error(selector))
        }
    }

    fn dom_texts(&self, selector: &str) -> (r: Result<Vec<String>, Error>) {
        let sel = parse_selector(selector)?;
        let elements = select(self, &sel);
        let ghost src = self.source_view();
        let ghost all = elements@;
        let mut texts: Vec<String> = Vec::new();
        let mut i: usize = 0;
        assert(all.skip(0) == all);
        assert(prepend_ok(Seq::<Seq<char>>::empty(), texts_of(src, all, selector@)) == texts_of(src, all, selector@)) by {
            match texts_of(src, all, selector@) {
                Ok(t) => { assert(Seq::<Seq<char>>::empty() + t == t); },
                Err(_) => {},
            }
        }
        while i < elements.len()
            invariant
                i <= all.len(),
                all == elements@,
                src == self.source_view(),
                css_valid(selector@),
                all == doc_matches(src, selector@),
                texts_of(src, all, selector@) == prepend_ok(
                    texts@.map_values(|x: String| x@),
                    texts_of(src, all.skip(i as int), selector@),
                ),
            decreases all.len() - i,
        {
            let ghost rest = all.skip(i as int);
            assert(rest[0] == all[i as int]);
            assert(rest.drop_first() == all.skip(i + 1));
            let ghost before = texts@.map_values(|x: String| x@);
            match first_text(self, elements[i]) {
                None => {
                    let mut m = String::from_str("Text not found in `");
                    push_str(&mut m, selector);
                    push_str(&mut m, "`");
                    proof {
                        assert(texts_of(src, rest, selector@) == Err::<Seq<Seq<char>>, Seq<char>>(
                            "Text not found in `"@ + selector@ + "`"@,
                        ));

                    }
                    return Err(Error { message: m });
                },
                Some(t) => {
                    let tt = trim(t.as_str());
                    texts.push(tt);
                    proof {
                        assert(texts@.map_values(|x: String| x@) =~= before + seq![trimmed(t@)]);
                        match texts_of(src, all.skip(i + 1), selector@) {
                            Ok(r) => {
                                assert(before + (seq![trimmed(t@)] + r) =~= before + seq![trimmed(t@)] + r);
                            },
                            Err(_) => {},
                        }
                    }
                },
            }
            i = i + 1;
        }
        proof {
            assert(all.skip(all.len() as int) =~= Seq::<usize>::empty());
            assert(texts@.map_values(|x: String| x@) + Seq::<Seq<char>>::empty() =~= texts@.map_values(|x: String| x@));
        }
        Ok(texts)
    }

    fn dom_attrs(&self, selector: &str, attr_name: &str) -> (r: Result<Vec<String>, Error>) {
        let sel = parse_selector(selector)?;
        let elements = select(self, &sel);
        let ghost src = self.source_view();
        let ghost all = elements@;
        let mut values: Vec<String> = Vec::new();
        let mut i: usize = 0;
        assert(all.skip(0) == all);
        assert(prepend_ok(Seq::<Seq<char>>::empty(), attrs_of(src, all, selector@, attr_name@)) == attrs_of(src, all, selector@, attr_name@)) by {
            match attrs_of(src, all, selector@, attr_name@) {
                Ok(t) => { assert(Seq::<Seq<char>>::empty() + t == t); },
                Err(_) => {},
            }
        }
        while i < elements.len()
            invariant
                i <= all.len(),
                all == elements@,
                src == self.source_view(),
                css_valid(selector@),
                all == doc_matches(src, selector@),
                attrs_of(src, all, selector@, attr_name@) == prepend_ok(
                    values@.map_values(|x: String| x@),
                    attrs_of(src, all.skip(i as int), selector@, attr_name@),
                ),
            decreases all.len() - i,
        {
            let ghost rest = all.skip(i as int);
            assert(rest[0] == all[i as int]);
            assert(rest.drop_first() == all.skip(i + 1));
            let ghost before = values@.map_values(|x: String| x@);
            match attr(self, elements[i], attr_name) {
                None => {
                    let mut m = String::from_str("Attribute `");
                    push_str(&mut m, attr_name);
                    push_str(&mut m, "` not found in `");
                    push_str(&mut m, selector);
                    push_str(&mut m, "`");
                    proof {
                        assert(attrs_of(src, rest, selector@, attr_name@) == Err::<
                            Seq<Seq<char>>,
                            Seq<char>,
                        >("Attribute `"@ + attr_name@ + "` not found in `"@ + selector@ + "`"@));
                    }
                    return Err(Error { message: m });
                },
                Some(t) => {
                    let tt = trim(t.as_str());
                    values.push(tt);
                    proof {
                        assert(values@.map_values(|x: String| x@) =~= before + seq![trimmed(t@)]);
                        match attrs_of(src, all.skip(i + 1), selector@, attr_name@) {
                            Ok(r) => {
                                assert(before + (seq![trimmed(t@)] + r) =~= before + seq![trimmed(t@)] + r);
                            },
                            Err(_) => {},
                        }
                    }
                },
            }
            i = i + 1;
        }
        proof {
            assert(all.skip(all.len() as int) =~= Seq::<usize>::empty());
            assert(values@.map_values(|x: String| x@) + Seq::<Seq<char>>::empty() =~= values@.map_values(|x: String| x@));
        }
        Ok(values)
    }

    fn dom_count(&self, selector: &str) -> (r: Result<usize, Error>) {
        let sel = parse_selector(selector)?;
        let elements = select(self, &sel);
        Ok(elements.len())
    }
}

proof fn lemma_texts_of(source: Seq<char>, elements: Seq<usize>, selector: Seq<char>)
    ensures
        texts_of(source, elements, selector) is Ok <==> forall|i: int|
            0 <= i < elements.len() ==> (#[trigger] element_first_text(source, elements[i])) is Some,
        texts_of(source, elements, selector) matches Ok(ts) ==> ts.len() == elements.len()
            && forall|i: int|
            0 <= i < elements.len() ==> ts[i] == trimmed(
                (#[trigger] element_first_text(source, elements[i]))->Some_0,
            ),
    decreases elements.len(),
{
    if elements.len() > 0 {
        let rest = elements.drop_first();
        lemma_texts_of(source, rest, selector);
        assert forall|i: int| 1 <= i < elements.len() implies elements[i] == rest[i - 1] by {}
        match element_first_text(source, elements[0]) {
            None => {},
            Some(t) => {
                match texts_of(source, rest, selector) {
                    Ok(r) => {
                        let ts = seq![trimmed(t)] + r;
                        assert forall|i: int| 1 <= i < elements.len() implies ts[i] == trimmed(
                            element_first_text(source, elements[i])->Some_0,
                        ) by {
                            assert(ts[i] == r[i - 1]);
                            assert(element_first_text(source, rest[i - 1]) is Some);
                        }
                    },
                    Err(_) => {
                        assert(exists|i: int|
                            0 <= i < rest.len() && element_first_text(source, rest[i]) is None);
                        let i = choose|i: int|
                            0 <= i < rest.len() && element_first_text(source, rest[i]) is None;
                        assert(element_first_text(source, elements[i + 1]) is None);
                    },
                }
            },
        }
    }
}

/// All texts of a selector are read exactly when the selector parses and
/// every element it matches has a text; they are then as many as the count
/// of the matches, and the `i`-th is the trimmed first text of the `i`-th
/// match in document order.
pub proof fn law_texts_match_count(doc: &Document, selector: Seq<char>)
    ensures
        doc.texts_spec(selector) is Ok <==> css_valid(selector) && forall|i: int|
            0 <= i < doc_matches(doc.source_view(), selector).len()
                ==> (#[trigger] element_first_text(
                doc.source_view(),
                doc_matches(doc.source_view(), selector)[i],
            )) is Some,
        doc.texts_spec(selector) matches Ok(ts) ==> {
            &&& doc.count_spec(selector) == Ok::<nat, Seq<char>>(ts.len())
            &&& forall|i: int|
                0 <= i < ts.len() ==> ts[i] == trimmed(
                    (#[trigger] element_first_text(
                        doc.source_view(),
                        doc_matches(doc.source_view(), selector)[i],
                    ))->Some_0,
                )
        },
{
    lemma_texts_of(doc.source_view(), doc_matches(doc.source_view(), selector), selector);
}

} // verus!
