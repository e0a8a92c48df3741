use mikack::dom::{attr, first_text, parse_document, parse_selector, select, HtmlExt};

const PAGE: &str = r#"<html><body>
<ul id="list">
  <li><a href=" /c/1 ">  Ch 1 </a></li>
  <li><a href="/c/2">Ch 2</a></li>
</ul>
<p class="empty"></p>
</body></html>"#;

#[test]
fn dom_texts_are_trimmed_first_texts() {
    let doc = parse_document(PAGE);
    assert_eq!(vec![String::from("Ch 1"), String::from("Ch 2")], doc.dom_texts("li a").unwrap());
    assert_eq!("Ch 1", doc.dom_text("li a").unwrap());
    assert_eq!(Vec::<String>::new(), doc.dom_texts("table td").unwrap());
}

#[test]
fn dom_attrs_are_trimmed() {
    let doc = parse_document(PAGE);
    assert_eq!(vec![String::from("/c/1"), String::from("/c/2")], doc.dom_attrs("li a", "href").unwrap());
    assert_eq!("/c/1", doc.dom_attr("li a", "href").unwrap());
}

#[test]
fn dom_count_counts_matches() {
    let doc = parse_document(PAGE);
    assert_eq!(2, doc.dom_count("#list li").unwrap());
    assert_eq!(0, doc.dom_count("table").unwrap());
}

#[test]
fn dom_errors() {
    let doc = parse_document(PAGE);
    assert_eq!("DOM node not found: .none", doc.dom_text(".none").unwrap_err().message);
    assert_eq!("DOM node not found: .none", doc.dom_attr(".none", "href").unwrap_err().message);
    assert_eq!("Text not found in `p.empty`", doc.dom_texts("p.empty").unwrap_err().message);
    assert_eq!(
        "Attribute `title` not found in `li a`",
        doc.dom_attrs("li a", "title").unwrap_err().message
    );
    assert_eq!("The selectors `[` parsing failed", doc.dom_count("[").unwrap_err().message);
}

#[test]
fn parse_selector_accepts_and_rejects() {
    assert!(parse_selector("div > a.x[href]").is_ok());
    assert_eq!("The selectors `a[` parsing failed", parse_selector("a[").unwrap_err().message);
}

#[test]
fn element_queries() {
    let doc = parse_document(PAGE);
    let links = select(&doc, &parse_selector("li a").unwrap());
    assert_eq!(2, links.len());
    assert_eq!(Some(String::from("  Ch 1 ")), first_text(&doc, links[0]));
    assert_eq!(Some(String::from("/c/2")), attr(&doc, links[1], "href"));
    assert_eq!(None, attr(&doc, links[1], "title"));
}
