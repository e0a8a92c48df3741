use mikack::models::Tag;

#[test]
fn all_tags_in_order() {
    assert_eq!(vec![Tag::Chinese, Tag::English, Tag::Japanese, Tag::Wallpaper, Tag::NSFW], Tag::all());
}

#[test]
fn from_i32_by_position() {
    assert_eq!(Some(Tag::Chinese), Tag::from_i32(0));
    assert_eq!(Some(Tag::NSFW), Tag::from_i32(4));
    assert_eq!(None, Tag::from_i32(5));
    assert_eq!(None, Tag::from_i32(-1));
}

#[test]
fn tag_names() {
    assert_eq!("中文", Tag::Chinese.name());
    assert_eq!("英文", Tag::English.name());
    assert_eq!("日文", Tag::Japanese.name());
    assert_eq!("壁纸", Tag::Wallpaper.name());
    assert_eq!("NSFW", Tag::NSFW.name());
}
