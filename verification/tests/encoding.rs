use mikack::encoding::decode_text;
use mikack::models::Chapter;

fn referer(url: &str) -> String {
    Chapter::make_headers(url).get("Referer").unwrap()
}

#[test]
fn decodes_gbk_bytes() {
    let bytes: Vec<u8> = vec![0xc4, 0xe3, 0xba, 0xc3];
    assert_eq!("你好", decode_text(&bytes, "gbk").unwrap());
}

#[test]
fn decodes_utf8_and_replaces_invalid_bytes() {
    assert_eq!("héllo", decode_text("héllo".as_bytes(), "utf-8").unwrap());
    let bytes: Vec<u8> = vec![0x61, 0xff, 0x62];
    assert_eq!("a\u{fffd}b", decode_text(&bytes, "utf-8").unwrap());
}

#[test]
fn unknown_label_is_an_error() {
    let err = decode_text(b"abc", "no-such-encoding").unwrap_err();
    assert_eq!("Unknown text encoding: no-such-encoding", err.message);
}

#[test]
fn percent_encoding_of_controls_and_non_ascii() {
    assert_eq!("http://a.com/x y", referer("http://a.com/x y"));
    assert_eq!("a%0Ab", referer("a\nb"));
    assert_eq!("%E4%B8%AD", referer("中"));
    assert_eq!("%7F", referer("\u{7f}"));
}
