use mikack::dom::{parse_document, parse_selector, select};
use mikack::error::Error;
use mikack::extract::{check_selector, simple_fetch_index, simple_parse_link, HtmlHelper};

const PAGE: &str = r#"<html><body>
<div class="item"><h3><a href="/comic/1"> Comic One </a></h3></div>
<div class="item"><h3><a href="/comic/2">Comic Two</a></h3></div>
<div class="broken"><h3><a>No href</a></h3></div>
</body></html>"#;

#[test]
fn dom_text_is_first_text_trimmed() {
    let doc = parse_document(PAGE);
    assert_eq!("Comic One", doc.dom_text(".item a").unwrap());
    assert_eq!("DOM node not found: .none", doc.dom_text(".none").unwrap_err().message);
}

#[test]
fn dom_attrs_are_untrimmed() {
    let doc = parse_document(PAGE);
    assert_eq!(
        vec![String::from("/comic/1"), String::from("/comic/2")],
        doc.dom_attrs(".item a", "href").unwrap()
    );
    assert_eq!("/comic/1", doc.dom_attr(".item a", "href").unwrap());
    assert_eq!(
        "Attribute `href` not found in `.broken a`",
        doc.dom_attrs(".broken a", "href").unwrap_err().message
    );
}

#[test]
fn quoted_selector_errors() {
    let doc = parse_document(PAGE);
    assert_eq!("The selector '[' parsing failed", doc.dom_text("[").unwrap_err().message);
    assert_eq!("The selector 'a[' parsing failed", check_selector("a[").unwrap_err().message);
}

#[test]
fn simple_parse_link_reads_title_and_href() {
    let doc = parse_document(PAGE);
    let items = select(&doc, &parse_selector("div").unwrap());
    assert_eq!(
        (String::from(" Comic One "), String::from("/comic/1")),
        simple_parse_link(&doc, items[0], "h3 > a").unwrap()
    );
    assert_eq!("No href found", simple_parse_link(&doc, items[2], "a").unwrap_err().message);
    assert_eq!("No link found", simple_parse_link(&doc, items[0], "span").unwrap_err().message);
}

#[test]
fn simple_fetch_index_builds_one_item_per_element() {
    let doc = parse_document(PAGE);
    let titles = simple_fetch_index(&doc, ".item", |e: usize| {
        simple_parse_link(&doc, e, "a").map(|(t, _)| t.trim().to_string())
    })
    .unwrap();
    assert_eq!(vec![String::from("Comic One"), String::from("Comic Two")], titles);
    let failed = simple_fetch_index(&doc, "div", |e: usize| simple_parse_link(&doc, e, "a"));
    assert_eq!("No href found", failed.unwrap_err().message);
    let bad: Result<Vec<usize>, Error> = simple_fetch_index(&doc, "[", |e: usize| Ok(e));
    assert_eq!("The selector '[' parsing failed", bad.unwrap_err().message);
}
