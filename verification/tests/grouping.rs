use mikack::grouping::{reversed_vec, AttachTo, Flatten, GROUP_SPACING};
use mikack::models::{Chapter, Comic};

fn chapters(titles: &[&str]) -> Vec<Chapter> {
    titles.iter().map(|t| Chapter::new(*t, &format!("http://a.com/{}", t), 0)).collect()
}

#[test]
fn attach_numbers_in_list_order() {
    let mut comic = Comic::new("c", "http://a.com/");
    chapters(&["one", "two", "three"]).attach_to(&mut comic);
    let got: Vec<(String, u32)> = comic.chapters.iter().map(|c| (c.title.clone(), c.which)).collect();
    assert_eq!(
        vec![(String::from("one"), 1), (String::from("two"), 2), (String::from("three"), 3)],
        got
    );
    assert_eq!("http://a.com/two", comic.chapters[1].url);
}

#[test]
fn reversed_attach_numbers_last_first() {
    let mut comic = Comic::new("c", "http://a.com/");
    comic.push_chapter(Chapter::new("prologue", "http://a.com/p", 0));
    chapters(&["newest", "middle", "oldest"]).reversed_attach_to(&mut comic);
    let got: Vec<(String, u32)> = comic.chapters.iter().map(|c| (c.title.clone(), c.which)).collect();
    assert_eq!(
        vec![
            (String::from("prologue"), 0),
            (String::from("oldest"), 1),
            (String::from("middle"), 2),
            (String::from("newest"), 3)
        ],
        got
    );
}

#[test]
fn attach_empty_list_changes_nothing() {
    let mut comic = Comic::new("c", "u");
    Vec::<Chapter>::new().attach_to(&mut comic);
    assert_eq!(0, comic.chapters.len());
}

#[test]
fn reversed_vec_reverses() {
    assert_eq!(vec![3, 2, 1], reversed_vec(vec![1, 2, 3]));
    assert_eq!(Vec::<u8>::new(), reversed_vec(Vec::<u8>::new()));
}

#[test]
fn flatten_numbers_across_groups() {
    let mut groups: Vec<(String, Vec<Chapter>)> = vec![
        (String::from("g1"), chapters(&["a", "b"])),
        (String::from("g2"), chapters(&["c"])),
    ];
    let items = groups.flatten(0);
    let got: Vec<(String, u32)> = items.iter().map(|c| (c.title.clone(), c.which)).collect();
    assert_eq!(
        vec![(String::from("a"), 1), (String::from("b"), 2), (String::from("c"), 3)],
        got
    );
    assert_eq!(2, groups[0].1[1].which);
    assert_eq!(3, groups[1].1[0].which);
}

#[test]
fn flatten_uses_group_spacing() {
    let mut groups: Vec<(String, Vec<Chapter>)> = vec![(String::from("g"), chapters(&["a", "b"]))];
    let items = groups.flatten(2);
    assert_eq!(10000, GROUP_SPACING);
    assert_eq!(20001, items[0].which);
    assert_eq!(20002, items[1].which);
}

#[test]
fn reversed_flatten_reverses_each_group() {
    let mut groups: Vec<(String, Vec<Chapter>)> = vec![
        (String::from("g1"), chapters(&["a", "b"])),
        (String::from("g2"), chapters(&["c", "d", "e"])),
    ];
    let items = groups.reversed_flatten(1);
    let got: Vec<(String, u32)> = items.iter().map(|c| (c.title.clone(), c.which)).collect();
    assert_eq!(
        vec![
            (String::from("b"), 10001),
            (String::from("a"), 10002),
            (String::from("e"), 10003),
            (String::from("d"), 10004),
            (String::from("c"), 10005)
        ],
        got
    );
    assert_eq!("b", groups[0].1[0].title);
    assert_eq!("g2", groups[1].0);
}
