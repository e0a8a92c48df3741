use mikack::encoding::decode_base64_text;
use mikack::pages::pages_from;
use mikack::sources::{cartoonmad, luscious, manhuadb, one77pic, qkmh5};
use mikack::text::split;

#[test]
fn split_like_str_split() {
    assert_eq!(vec!["a", "b", "", "c"], split("a,b,,c", ","));
    assert_eq!(vec!["", ""], split("$$", "$$"));
    assert_eq!(vec!["whole"], split("whole", "--"));
    assert_eq!(vec![""], split("", "x"));
    assert_eq!(vec!["a", "a"], split("aXYa", "XY"));
}

#[test]
fn base64_text_decoding() {
    assert_eq!("hello", decode_base64_text("aGVsbG8=").unwrap());
    assert_eq!("中文", decode_base64_text("5Lit5paH").unwrap());
    assert!(decode_base64_text("not base64!").is_err());
    assert!(decode_base64_text("/w==").is_err());
}

#[test]
fn qkmh5_addresses_are_split_on_marker() {
    let encoded = "aHR0cDovL2EuY29tLzEuanBnJHFpbmd0aWFuZHkkaHR0cDovL2EuY29tLzIuanBn";
    assert_eq!(
        vec![String::from("http://a.com/1.jpg"), String::from("http://a.com/2.jpg")],
        qkmh5::image_addresses(encoded).unwrap()
    );
    assert!(qkmh5::image_addresses("%%%").is_err());
}

#[test]
fn manhuadb_script_and_address() {
    let script = manhuadb::image_list_script("W3siaW1nIjoiMS5qcGcifV0=").unwrap();
    assert_eq!(
        "\n            var imgs = eval('[{\"img\":\"1.jpg\"}]').map(item => item.img);\n            imgs\n        ",
        script
    );
    assert_eq!("https://www.manhuadb.com/ccbaike/1/1.jpg", manhuadb::image_address("/ccbaike/1/", "1.jpg"));
}

#[test]
fn luscious_full_size() {
    assert_eq!(
        "https://cdn.x/w1024/abc_1024x0.jpg",
        luscious::full_size_address("https://cdn.x/w315/abc_315x0.jpg")
    );
    assert_eq!("plain.png", luscious::full_size_address("plain.png"));
}

#[test]
fn cartoonmad_link_and_title() {
    assert_eq!(
        "http://www.cartoonmad.com/comic/115301532018001.html",
        cartoonmad::chapter_link("https://www.cartoonmad.com/comic/115301532018001.html?p=2")
    );
    assert_eq!("http://a.com/x", cartoonmad::chapter_link("http://a.com/x"));
    assert_eq!("魔導少年 - 153 話", cartoonmad::chapter_title("魔導少年漫畫", "153 話"));
}

#[test]
fn listing_cursor_moves_on_past_read_addresses() {
    let mut c = one77pic::ListingCursor::new();
    assert_eq!(1, c.listing_page_for(1));
    c.record(3);
    assert_eq!(1, c.listing_page_for(2));
    assert_eq!(1, c.listing_page_for(3));
    assert_eq!(2, c.listing_page_for(4));
    c.record(3);
    assert_eq!(6, c.last_page_end);
}

#[test]
fn pages_from_numbers_from_first() {
    let pages = pages_from(4, &vec![String::from("a/x.png"), String::from("a/y.gif")]);
    assert_eq!(2, pages.len());
    assert_eq!(4, pages[0].n);
    assert_eq!("5.gif", pages[1].fname);
}
