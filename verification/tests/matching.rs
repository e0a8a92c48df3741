use mikack::routes::{domain_route, match_content, DomainRoute};

#[test]
fn match_content_returns_group() {
    assert_eq!("abc123", match_content("var code = 'abc123';", r"code = '([^']+)'", 1).unwrap());
    assert_eq!("code = 'abc123'", match_content("var code = 'abc123';", r"code = '([^']+)'", 0).unwrap());
}

#[test]
fn match_content_errors() {
    assert_eq!("No crypro code found", match_content("nothing", r"code = '([^']+)'", 1).unwrap_err().message);
    assert_eq!("No crypro code found", match_content("code = 'x'", r"code = '([^']+)'", 2).unwrap_err().message);
    assert_eq!("No crypro code found", match_content("x", r"(", 1).unwrap_err().message);
}

#[test]
fn chapter_rule_wins_over_comic_rule() {
    assert_eq!(
        Some(DomainRoute::Chapter(String::from("manhua.dmzj.com"))),
        domain_route("http://manhua.dmzj.com/yifuyaozhemechuan/56275.shtml")
    );
    assert_eq!(
        Some(DomainRoute::Comic(String::from("manhua.dmzj.com"))),
        domain_route("http://manhua.dmzj.com/yifuyaozhemechuan/")
    );
    assert_eq!(None, domain_route("https://example.com/"));
}
