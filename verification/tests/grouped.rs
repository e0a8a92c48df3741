use mikack::dom::parse_document;
use mikack::grouped::GroupedItemsSelector;
use mikack::models::Chapter;
use std::rc::Rc;

const PAGE: &str = r#"<html><body>
<div class="names"><span>正篇</span><span>番外</span></div>
<div class="g"><a href="/c/1 "> 第1话 </a><a href="/c/2">第2话</a></div>
<div class="g"><a href="/x/1">番外1</a></div>
<div class="g"><a href="/y/1" title="  Y  ">y</a></div>
</body></html>"#;

#[test]
fn outside_names_by_position_then_default_names() {
    let sel = GroupedItemsSelector {
        document: Rc::new(parse_document(PAGE)),
        group_dom: "div.g",
        outside_group_name_dom: "div.names span",
        items_dom: "a",
        items_url_prefix: "http://a.com",
        ..Default::default()
    };
    let groups = sel.gen::<Chapter>().unwrap();
    assert_eq!(3, groups.len());
    assert_eq!("正篇", groups[0].0);
    assert_eq!("番外", groups[1].0);
    assert_eq!("第3组", groups[2].0);
    assert_eq!("第1话", groups[0].1[0].title);
    assert_eq!("http://a.com/c/1", groups[0].1[0].url);
    assert_eq!("http://a.com/c/2", groups[0].1[1].url);
    assert_eq!(0, groups[0].1[1].which);
    assert_eq!("番外1", groups[1].1[0].title);
}

#[test]
fn inside_names_and_title_attribute() {
    let page = r#"<div class="g"><h3>Vol 1</h3><a href="/a" title="A">a</a></div>
<div class="g"><a href="/b" title="B">b</a></div>"#;
    let sel = GroupedItemsSelector {
        document: Rc::new(parse_document(page)),
        group_dom: ".g",
        inside_group_name_dom: "h3",
        items_dom: "a",
        items_title_attr: "title",
        ..Default::default()
    };
    let groups = sel.gen::<Chapter>().unwrap();
    assert_eq!("Vol 1", groups[0].0);
    assert_eq!("A", groups[0].1[0].title);
    assert_eq!("/a", groups[0].1[0].url);
    assert_eq!("第2组", groups[1].0);
    assert_eq!("B", groups[1].1[0].title);
}

#[test]
fn missing_title_attribute_is_reported_with_location() {
    let sel = GroupedItemsSelector {
        document: Rc::new(parse_document(PAGE)),
        group_dom: "div.g",
        items_dom: "a",
        items_title_attr: "title",
        ..Default::default()
    };
    assert_eq!(
        "No item title attribute `title` found at location `0`",
        sel.gen::<Chapter>().unwrap_err().message
    );
}

#[test]
fn bad_group_selector_is_reported() {
    let sel = GroupedItemsSelector {
        document: Rc::new(parse_document(PAGE)),
        group_dom: "div[",
        items_dom: "a",
        ..Default::default()
    };
    assert_eq!("The selectors `div[` parsing failed", sel.gen::<Chapter>().unwrap_err().message);
}

#[test]
fn default_selector_reads_href() {
    let sel = GroupedItemsSelector::default();
    assert_eq!("href", sel.items_url_attr);
    assert_eq!("", sel.group_dom);
}
