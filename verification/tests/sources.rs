use mikack::models::Comic;
use mikack::sources::{dmjz, kuaikanmanhua, lhscan, luscious, manben, manhuaren, ninehentai, tvbsmh};

#[test]
fn dmjz_search_item_url_gets_scheme() {
    let item = dmjz::SearchComicItem {
        comic_name: String::from("灌篮高手"),
        comic_cover: String::from("https://img.dmzj.com/c.jpg"),
        comic_url_raw: String::from("//manhua.dmzj.com/lanqiu/"),
    };
    assert_eq!("https://manhua.dmzj.com/lanqiu/", item.comic_url_full());
    let comic = Comic::from(item);
    assert_eq!("灌篮高手", comic.title);
    assert_eq!("https://manhua.dmzj.com/lanqiu/", comic.url);
    assert_eq!("https://img.dmzj.com/c.jpg", comic.cover);
}

#[test]
fn kuaikanmanhua_topic_url() {
    let t = kuaikanmanhua::Topic { id: 544, title: String::from("整容游戏"), vertical_image_url: String::new() };
    assert_eq!("https://www.kuaikanmanhua.com/web/topic/544/", t.url());
}

#[test]
fn lhscan_search_item_url_from_onclick() {
    let item = lhscan::SearchDataItem {
        image: String::from("i.jpg"),
        primary: String::from("Title"),
        onclick: String::from("window.location='manga-abc.html'"),
    };
    assert_eq!("manga-abc.html", item.url().unwrap());
    let comic = Comic::from(&item);
    assert_eq!("manga-abc.html", comic.url);
    assert_eq!("Title", comic.title);
    let odd = lhscan::SearchDataItem { image: String::new(), primary: String::from("T"), onclick: String::from("go()") };
    assert_eq!("No crypro code found", odd.url().unwrap_err().message);
    assert_eq!("go()", Comic::from(&odd).url);
}

#[test]
fn luscious_and_manben_prefix_paths() {
    let l = luscious::ComicItem {
        title: String::from("L"),
        url: String::from("/albums/x_1/"),
        cover: luscious::Cover { url: String::from("c.png") },
    };
    let c = Comic::from(&l);
    assert_eq!("https://www.luscious.net/albums/x_1/", c.url);
    assert_eq!("c.png", c.cover);
    let m = manben::ComicItem { title: String::from("琅琊榜"), big_pic: String::from("b.jpg"), url: String::from("/mh-langyabang/") };
    let c = Comic::from(&m);
    assert_eq!("http://www.manben.com/mh-langyabang/", c.url);
    assert_eq!("b.jpg", c.cover);
}

#[test]
fn manhuaren_and_ninehentai_and_tvbsmh_urls() {
    let i = manhuaren::Item { title: String::from("风云"), url_key: String::from("manhua-fengyunquanji") };
    assert_eq!("http://www.manhuaren.com/manhua-fengyunquanji/", i.full_url());
    let b = ninehentai::Book { id: 60726, image_server: String::from("https://cdn.9hentai.com/images/"), title: String::new(), total_page: 29 };
    assert_eq!("https://9hentai.com/g/60726/", b.url());
    assert_eq!("https://cdn.9hentai.com/images/60726/cover-small.jpg", b.cover());
    let ch = tvbsmh::ChapterItem { chapter_id: 123, title: String::from("第一回") };
    assert_eq!("https://www.tvbsmh.com/series-noczp-123-1-三國誌異", ch.url("noczp", "三國誌異"));
}
