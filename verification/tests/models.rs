use mikack::models::{Chapter, Comic, ComicState, FromLink, FromUrl, Page, SetCover, SetWhich};

#[test]
fn page_new_names_file_after_number_and_extension() {
    let page = Page::new(3, "https://img.example.com/a/b/0012.jpg?token=abc");
    assert_eq!(3, page.n);
    assert_eq!("https://img.example.com/a/b/0012.jpg?token=abc", page.address);
    assert_eq!("3.jpg", page.fname);
    assert_eq!("*/*", page.fmime);
}

#[test]
fn page_fname_edge_cases() {
    assert_eq!("0.png", Page::fname("http://x.com/p.png", &0));
    assert_eq!("7", Page::fname("http://x.com/noext", &7));
    assert_eq!("7", Page::fname("http://x.com/.hidden", &7));
    assert_eq!("8.gz", Page::fname("archive.tar.gz", &8));
    assert_eq!("9.webp", Page::fname("http://x.com/dir/img.webp/", &9));
    assert_eq!("10.jpg", Page::fname("http://x.com/img.jpg/.", &10));
    assert_eq!("11", Page::fname("http://x.com/img.jpg/..", &11));
    assert_eq!("12.", Page::fname("http://x.com/img.", &12));
    assert_eq!("13", Page::fname("", &13));
    assert_eq!("14.jpg", Page::fname("http://x.com/view.php?id=1.jpg", &14));
    assert_eq!("16.php", Page::fname("http://x.com/view.php?id=1", &16));
    assert_eq!("15", Page::fname("http://x.com/a?b.c/d", &15));
}

#[test]
fn chapter_new_trims_title_and_sets_referer() {
    let chapter = Chapter::new("  第1话 \n", "http://a.com/c/1.html", 5);
    assert_eq!("第1话", chapter.title);
    assert_eq!("http://a.com/c/1.html", chapter.url);
    assert_eq!(5, chapter.which);
    assert_eq!(0, chapter.pages.len());
    assert_eq!(1, chapter.page_headers.len());
    assert_eq!(Some(String::from("http://a.com/c/1.html")), chapter.page_headers.get("Referer"));
}

#[test]
fn make_headers_percent_encodes_non_ascii_and_controls() {
    let headers = Chapter::make_headers("http://a.com/漫画\t1");
    assert_eq!(
        Some(String::from("http://a.com/%E6%BC%AB%E7%94%BB%091")),
        headers.get("Referer")
    );
    assert_eq!(None, headers.get("referer"));
}

#[test]
fn chapter_title_and_set_title() {
    assert_eq!("abc", Chapter::title("\u{3000} abc \u{a0}"));
    let mut chapter = Chapter::new("x", "u", 0);
    chapter.set_title(" new title ");
    assert_eq!("new title", chapter.title);
}

#[test]
fn chapter_push_page_and_header() {
    let mut chapter = Chapter::new("t", "http://u.com/", 1);
    chapter.push_page(Page::new(0, "http://u.com/1.png"));
    chapter.push_page(Page::new(1, "http://u.com/2.png"));
    assert_eq!(2, chapter.pages.len());
    assert_eq!("1.png", chapter.pages[1].fname);
    chapter.push_page_header("Cookie", "a=1");
    chapter.push_page_header("Referer", "http://other.com/");
    assert_eq!(2, chapter.page_headers.len());
    assert_eq!(Some(String::from("a=1")), chapter.page_headers.get("Cookie"));
    assert_eq!(Some(String::from("http://other.com/")), chapter.page_headers.get("Referer"));
}

#[test]
fn comic_constructors() {
    let comic = Comic::new(" 标题 ", "http://c.com/1/");
    assert_eq!(" 标题 ", comic.title);
    assert_eq!("http://c.com/1/", comic.url);
    assert_eq!("", comic.cover);
    assert_eq!(0, comic.chapters.len());
    assert_eq!(ComicState::Unknown, comic.state);

    let comic = Comic::from_index("t", "u", "c.jpg");
    assert_eq!("c.jpg", comic.cover);

    let mut comic = Comic::from_link("text", "href");
    assert_eq!("text", comic.title);
    assert_eq!("href", comic.url);
    comic.set_cover("cover.png");
    assert_eq!("cover.png", comic.cover);
    comic.push_chapter(Chapter::new("c1", "u1", 1));
    assert_eq!(1, comic.chapters.len());

    let comic = Comic::from_url("http://only.url/");
    assert_eq!("", comic.title);
    assert_eq!("http://only.url/", comic.url);
    assert_eq!(ComicState::Unknown, ComicState::default());
}

#[test]
fn chapter_from_link_url_and_comic() {
    let mut chapter = Chapter::from_link(" 第2话 ", "http://c.com/2.html");
    assert_eq!("第2话", chapter.title);
    assert_eq!(0, chapter.which);
    chapter.set_which(42);
    assert_eq!(42, chapter.which);
    chapter.set_cover("ignored.png");
    assert_eq!("第2话", chapter.title);

    let chapter = Chapter::from_url("http://c.com/3.html");
    assert_eq!("", chapter.title);
    assert_eq!(Some(String::from("http://c.com/3.html")), chapter.page_headers.get("Referer"));

    let comic = Comic::new("整本", "http://c.com/book/");
    let chapter = Chapter::from(&comic);
    assert_eq!("整本", chapter.title);
    assert_eq!("http://c.com/book/", chapter.url);
    assert_eq!(0, chapter.which);
}

#[test]
fn comic_clone_keeps_chapters_and_tags() {
    let mut comic = Comic::from_index("t", "http://a.com/", "c.jpg");
    comic.push_chapter(Chapter::new("第1话", "http://a.com/1", 1));
    comic.tags.push(String::from("中文"));
    comic.state = ComicState::Ongoing;
    let copy = comic.clone();
    assert_eq!("t", copy.title);
    assert_eq!("c.jpg", copy.cover);
    assert_eq!(1, copy.chapters.len());
    assert_eq!("第1话", copy.chapters[0].title);
    assert_eq!(Some(String::from("http://a.com/1")), copy.chapters[0].page_headers.get("Referer"));
    assert_eq!(vec![String::from("中文")], copy.tags);
    assert_eq!(ComicState::Ongoing, copy.state);
}
