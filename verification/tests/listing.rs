use mikack::dom::parse_document;
use mikack::listing::ListQuery;
use mikack::models::Comic;

const PAGE: &str = r#"<html><body><ul>
<li class="item"><a href="/comic/1" title="T1"><span>Name 1</span> extra</a><img src="/c1.jpg"></li>
<li class="item"><a href="/comic/2" title=" T2 ">Name 2</a><img src="/c2.jpg"></li>
</ul></body></html>"#;

#[test]
fn links_by_target_dom() {
    let doc = parse_document(PAGE);
    let q = ListQuery { target_dom: "li.item a", link_prefix: "http://a.com", ..ListQuery::new() };
    let comics: Vec<Comic> = q.items(&doc).unwrap();
    assert_eq!(2, comics.len());
    assert_eq!("Name 1", comics[0].title);
    assert_eq!("http://a.com/comic/1", comics[0].url);
    assert_eq!("", comics[0].cover);
    assert_eq!("Name 2", comics[1].title);
}

#[test]
fn parents_with_covers_and_title_attribute() {
    let doc = parse_document(PAGE);
    let q = ListQuery {
        parent_dom: "li.item",
        link_dom: "a",
        link_text_attr: "title",
        cover_dom: "img",
        cover_prefix: "http://a.com",
        ..ListQuery::new()
    };
    let comics: Vec<Comic> = q.items(&doc).unwrap();
    assert_eq!("T1", comics[0].title);
    assert_eq!("T2", comics[1].title);
    assert_eq!("/comic/2", comics[1].url);
    assert_eq!("http://a.com/c1.jpg", comics[0].cover);
}

#[test]
fn listing_errors() {
    let doc = parse_document(PAGE);
    let no_cover = ListQuery { parent_dom: "li.item", link_dom: "a", cover_dom: "video", ..ListQuery::new() };
    assert_eq!(
        "No cover DOM node found: `video`",
        no_cover.items::<Comic>(&doc).unwrap_err().message
    );
    let no_span = ListQuery { target_dom: "li.item a", target_text_dom: "span", ..ListQuery::new() };
    assert_eq!(
        "No :target_text_dom node found: `span`",
        no_span.items::<Comic>(&doc).unwrap_err().message
    );
    let no_attr = ListQuery { target_dom: "li.item a", target_text_attr: "alt", ..ListQuery::new() };
    assert_eq!("No :target_text_attr found: `alt`", no_attr.items::<Comic>(&doc).unwrap_err().message);
    let bad = ListQuery { target_dom: "li[", ..ListQuery::new() };
    assert_eq!("The selector 'li[' parsing failed", bad.items::<Comic>(&doc).unwrap_err().message);
}

#[test]
fn defaults() {
    let q = ListQuery::new();
    assert_eq!("src", q.cover_attr);
    assert_eq!("href", q.link_attr);
    assert_eq!("", q.target_dom);
}
