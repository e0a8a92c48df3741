use mikack::models::{Chapter, Page};
use mikack::pages::{ChapterPages, PageStep};

fn addresses(n: usize) -> Vec<String> {
    (0..n).map(|i| format!("http://img.a.com/{}.jpg", i)).collect()
}

#[test]
fn full_walk_yields_pages_then_ends() {
    let chapter = Chapter::new("c", "http://a.com/c", 1);
    let mut walk = ChapterPages::full(chapter, addresses(3));
    assert_eq!(3, walk.total);
    for i in 0..3usize {
        match walk.step() {
            PageStep::Ready(p) => {
                assert_eq!(i, p.n);
                assert_eq!(format!("http://img.a.com/{}.jpg", i), p.address);
                assert_eq!(format!("{}.jpg", i), p.fname);
            }
            other => panic!("unexpected step {:?}", other),
        }
    }
    assert!(matches!(walk.step(), PageStep::End));
    assert!(matches!(walk.step(), PageStep::End));
    assert_eq!(3, walk.chapter().pages.len());
    assert_eq!("c", walk.chapter_title_clone());
}

#[test]
fn empty_walk_ends_at_once() {
    let mut walk = ChapterPages::full(Chapter::new("c", "u", 0), vec![]);
    assert!(matches!(walk.step(), PageStep::End));
}

#[test]
fn unknown_count_asks_for_fetches() {
    let mut walk = ChapterPages::new(Chapter::new("c", "u", 0), -1, addresses(1));
    assert!(matches!(walk.step(), PageStep::Ready(_)));
    match walk.step() {
        PageStep::Fetch(n) => assert_eq!(2, n),
        other => panic!("unexpected step {:?}", other),
    }
    let fetched = vec![Page::new(1, "http://img.a.com/1.png"), Page::new(2, "http://img.a.com/2.png")];
    let first = walk.take_fetched(fetched).unwrap();
    assert_eq!("1.png", first.fname);
    match walk.step() {
        PageStep::Ready(p) => assert_eq!(2, p.n),
        other => panic!("unexpected step {:?}", other),
    }
    match walk.step() {
        PageStep::Fetch(n) => assert_eq!(4, n),
        other => panic!("unexpected step {:?}", other),
    }
    assert!(walk.take_fetched(vec![]).is_none());
    assert_eq!(3, walk.into_chapter().pages.len());
}

#[test]
fn positive_count_ends_walk_even_with_more_pages() {
    let mut walk = ChapterPages::new(Chapter::new("c", "u", 0), 2, addresses(5));
    assert!(matches!(walk.step(), PageStep::Ready(_)));
    assert!(matches!(walk.step(), PageStep::Ready(_)));
    assert!(matches!(walk.step(), PageStep::End));
}

#[test]
fn new_appends_after_existing_pages() {
    let mut chapter = Chapter::new("c", "u", 0);
    chapter.push_page(Page::new(9, "x.gif"));
    let walk = ChapterPages::new(chapter, 3, addresses(2));
    let pages = &walk.chapter().pages;
    assert_eq!(3, pages.len());
    assert_eq!(9, pages[0].n);
    assert_eq!(0, pages[1].n);
    assert_eq!(1, pages[2].n);
}

#[test]
fn fresh_walk_is_within_limits() {
    let walk = ChapterPages::full(Chapter::new("c", "u", 0), addresses(2));
    assert!(walk.within_limits());
}
