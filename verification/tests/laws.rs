use mikack::dom::{parse_document, HtmlExt};
use mikack::grouping::{AttachTo, Flatten};
use mikack::headers::Headers;
use mikack::models::{Chapter, Comic, Page};
use mikack::pages::{ChapterPages, PageStep};

#[test]
fn walk_yields_fetched_pages_in_order() {
    let mut walk = ChapterPages::new(Chapter::new("c", "u", 0), -1, vec![]);
    assert!(matches!(walk.step(), PageStep::Fetch(1)));
    let fetched: Vec<Page> = (0..3).map(|i| Page::new(i, &format!("p{}.jpg", i))).collect();
    assert_eq!(0, walk.take_fetched(fetched).unwrap().n);
    for n in 1..3usize {
        match walk.step() {
            PageStep::Ready(p) => assert_eq!(n, p.n),
            other => panic!("unexpected {:?}", other),
        }
    }
    assert!(matches!(walk.step(), PageStep::Fetch(4)));
}

#[test]
fn numbering_from_one_and_disjoint_groups() {
    let mut comic = Comic::new("c", "u");
    vec![Chapter::new("a", "1", 9), Chapter::new("b", "2", 9)].reversed_attach_to(&mut comic);
    assert_eq!(("b", 1), (comic.chapters[0].title.as_str(), comic.chapters[0].which));
    assert_eq!(("a", 2), (comic.chapters[1].title.as_str(), comic.chapters[1].which));

    let mut first = vec![(String::from("g"), vec![Chapter::new("x", "1", 0)])];
    let mut second = vec![(String::from("g"), vec![Chapter::new("y", "2", 0)])];
    let a = first.flatten(0);
    let b = second.flatten(1);
    assert_ne!(a[0].which, b[0].which);
}

#[test]
fn headers_read_after_write() {
    let mut h = Headers::new();
    h.insert(String::from("Referer"), String::from("a"));
    h.insert(String::from("Cookie"), String::from("c=1"));
    h.insert(String::from("Referer"), String::from("b"));
    assert_eq!(Some(String::from("b")), h.get("Referer"));
    assert_eq!(Some(String::from("c=1")), h.get("Cookie"));
}

#[test]
fn titles_are_stable_under_set_title() {
    let mut chapter = Chapter::new("\t 第2话 \u{3000}", "http://a.com/x", 2);
    let title = chapter.title.clone();
    chapter.set_title(&title);
    assert_eq!("第2话", chapter.title);
}

#[test]
fn printable_url_is_its_own_referer() {
    let url = "https://www.manhuagui.com/comic/20515/469245.html?p=2#top";
    assert_eq!(Some(String::from(url)), Chapter::new("t", url, 0).page_headers.get("Referer"));
}

#[test]
fn page_names_start_with_number_and_drop_query() {
    assert_eq!("120.jpeg", Page::fname("http://a.com/x/y.jpeg?q=1&r=2", &120));
    assert_eq!("7.b", Page::fname("http://a.com/noext?x=a.b", &7));
    assert_eq!("8", Page::fname("http://a.com/noext?x=1", &8));
}

#[test]
fn split_then_join_gives_back_text() {
    for s in ["a$qingtiandy$b$qingtiandy$", "", "$qingtiandy$", "no marker"] {
        let pieces = mikack::text::split(s, "$qingtiandy$");
        assert!(!pieces.is_empty());
        assert_eq!(s, pieces.join("$qingtiandy$"));
    }
}

#[test]
fn reversed_flatten_equals_flatten_of_reversed_groups() {
    let make = |titles: &[&str]| -> Vec<Chapter> { titles.iter().map(|t| Chapter::new(*t, *t, 0)).collect() };
    let mut v = vec![
        (String::from("g1"), make(&["a", "b"])),
        (String::from("g2"), make(&["c", "d", "e"])),
    ];
    let mut w = vec![
        (String::from("g1"), make(&["b", "a"])),
        (String::from("g2"), make(&["e", "d", "c"])),
    ];
    let from_v = v.reversed_flatten(3);
    let from_w = w.flatten(3);
    let key = |cs: &Vec<Chapter>| -> Vec<(String, u32)> { cs.iter().map(|c| (c.title.clone(), c.which)).collect() };
    assert_eq!(key(&from_v), key(&from_w));
    for g in 0..2 {
        assert_eq!(v[g].0, w[g].0);
        assert_eq!(key(&v[g].1), key(&w[g].1));
    }
}

#[test]
fn all_texts_are_as_many_as_the_count() {
    let doc = parse_document("<ul><li> a </li><li>b</li><li>c</li></ul>");
    let texts = doc.dom_texts("li").unwrap();
    assert_eq!(doc.dom_count("li").unwrap(), texts.len());
    assert_eq!(vec!["a", "b", "c"], texts);
}
