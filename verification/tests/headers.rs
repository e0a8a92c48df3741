use mikack::headers::Headers;

#[test]
fn insert_then_get_gives_back_value() {
    let mut h = Headers::new();
    assert_eq!(0, h.len());
    assert_eq!(None, h.get("Referer"));
    h.insert(String::from("Referer"), String::from("http://a.com/"));
    assert_eq!(Some(String::from("http://a.com/")), h.get("Referer"));
    assert_eq!(1, h.len());
}

#[test]
fn insert_replaces_and_keeps_others() {
    let mut h = Headers::new();
    h.insert(String::from("A"), String::from("1"));
    h.insert(String::from("B"), String::from("2"));
    h.insert(String::from("A"), String::from("3"));
    assert_eq!(2, h.len());
    assert_eq!(Some(String::from("3")), h.get("A"));
    assert_eq!(Some(String::from("2")), h.get("B"));
    assert_eq!(None, h.get("a"));
}

#[test]
fn clone_has_same_entries() {
    let mut h = Headers::new();
    h.insert(String::from("X"), String::from("y"));
    let c = h.clone();
    assert_eq!(Some(String::from("y")), c.get("X"));
    assert_eq!(1, c.pairs().len());
}
