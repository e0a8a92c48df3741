use mikack::routes::page_url;
use mikack::text::{decimal_string, push_signed_decimal, replace_all, trim};

#[test]
fn trim_removes_unicode_white_space_at_both_ends() {
    assert_eq!("abc", trim("  abc\t\n"));
    assert_eq!("a b", trim("\u{3000}a b\u{a0}"));
    assert_eq!("", trim(" \r\n\t "));
    assert_eq!("", trim(""));
    assert_eq!("x", trim("x"));
}

#[test]
fn trim_is_stable() {
    let once = trim("  第12话  ");
    assert_eq!(once, trim(&once));
}

#[test]
fn replace_all_replaces_left_to_right_without_overlap() {
    assert_eq!("https://a.com/x", replace_all("//a.com/x", "//", "https://"));
    assert_eq!("b-b-b", replace_all("a-a-a", "a", "b"));
    assert_eq!("xa", replace_all("aaa", "aa", "x"));
    assert_eq!("nothing", replace_all("nothing", "zz", "y"));
    assert_eq!("", replace_all("", "a", "b"));
}

#[test]
fn decimal_renderings() {
    assert_eq!("0", decimal_string(0));
    assert_eq!("10000", decimal_string(10000));
    assert_eq!("18446744073709551615", decimal_string(u64::MAX));
    let mut s = String::from("n=");
    push_signed_decimal(&mut s, -42);
    assert_eq!("n=-42", s);
    let mut t = String::new();
    push_signed_decimal(&mut t, i64::MIN);
    assert_eq!("-9223372036854775808", t);
}

#[test]
fn concat_joins() {
    assert_eq!("http://www.manben.com/mh-a/", mikack::text::concat("http://www.manben.com", "/mh-a/"));
}

#[test]
fn page_url_uses_first_address_for_page_one() {
    assert_eq!("https://a.com/list", page_url("https://a.com/list", "https://a.com/list_{}.html", 1));
    assert_eq!("https://a.com/list", page_url("https://a.com/list", "https://a.com/list_{}.html", 0));
    assert_eq!("https://a.com/list_2.html", page_url("https://a.com/list", "https://a.com/list_{}.html", 2));
    assert_eq!("p/15/15", page_url("first", "p/{}/{}", 15));
}
