use mikack::dom::parse_document;
use mikack::links::LinkQuery;
use mikack::models::{Chapter, Comic};

const PAGE: &str = r#"<html><body>
<dl id="comicmain">
  <dd><img src="x.jpg"><a href="/comic/1" title="Title 1"> One </a></dd>
  <dd><img src="y.jpg"><a href="/comic/2" title="Title 2"><b>Two</b> more</a></dd>
</dl>
<ul class="list"><li><span>no link</span></li></ul>
</body></html>"#;

#[test]
fn target_links_with_prefix() {
    let doc = parse_document(PAGE);
    let q = LinkQuery { target: Some("#comicmain > dd > a"), href_prefix: "https://comic.kukudm.com", ..LinkQuery::new() };
    let comics: Vec<Comic> = q.items(&doc).unwrap();
    assert_eq!(2, comics.len());
    assert_eq!("One", comics[0].title);
    assert_eq!("https://comic.kukudm.com/comic/1", comics[0].url);
    assert_eq!("Two", comics[1].title);
}

#[test]
fn selector_and_find_with_title_sources() {
    let doc = parse_document(PAGE);
    let by_attr = LinkQuery { selector: "#comicmain > dd", text_attr: Some("title"), ..LinkQuery::new() };
    let chapters: Vec<Chapter> = by_attr.items(&doc).unwrap();
    assert_eq!("Title 1", chapters[0].title);
    assert_eq!("/comic/2", chapters[1].url);
    let by_sub = LinkQuery { target: Some("dd > a"), sub_dom_text: Some("b"), ..LinkQuery::new() };
    let err = by_sub.items::<Chapter>(&doc).unwrap_err();
    assert_eq!("No :sub_dom_text node found: `b`", err.message);
}

#[test]
fn link_query_errors() {
    let doc = parse_document(PAGE);
    let no_link = LinkQuery { selector: "ul.list li", ..LinkQuery::new() };
    assert_eq!("No :find found: a", no_link.items::<Comic>(&doc).unwrap_err().message);
    let no_attr = LinkQuery { target: Some("dd > a"), text_attr: Some("alt"), ..LinkQuery::new() };
    assert_eq!("No :text_attr found: `alt`", no_attr.items::<Comic>(&doc).unwrap_err().message);
    let no_href = LinkQuery { target: Some("dd > img"), ..LinkQuery::new() };
    assert_eq!("No link href found", no_href.items::<Comic>(&doc).unwrap_err().message);
    let empty = LinkQuery::new();
    assert_eq!("The selector '' parsing failed", empty.items::<Comic>(&doc).unwrap_err().message);
    let bad_find = LinkQuery { selector: "dd", find: "a[", ..LinkQuery::new() };
    assert_eq!("The selector 'a[' parsing failed", bad_find.items::<Comic>(&doc).unwrap_err().message);
}

#[test]
fn no_elements_no_items() {
    let doc = parse_document(PAGE);
    let q = LinkQuery { target: Some("table a"), ..LinkQuery::new() };
    assert_eq!(0, q.items::<Comic>(&doc).unwrap().len());
}
