//! Recognising the source and the kind of page that a URL points to.
use vstd::prelude::*;
use crate::error::Error;
use crate::text::{concat, decimal, decimal_string, replace_all, replaced};

verus! {

/// Whether `pattern` is a valid regular expression of the `regex` crate
/// (`Regex::new(pattern)` succeeds).
pub uninterp spec fn regex_compiles(pattern: Seq<char>) -> bool;

/// Whether the regular expression `pattern` matches somewhere in `text`
/// (`Regex::is_match`).
pub uninterp spec fn regex_is_match(pattern: Seq<char>, text: Seq<char>) -> bool;

/// The text of capture group `group` of the first match of `pattern` in
/// `text`, if there is a match and the group took part in it
/// (`Regex::captures` followed by `Captures::get`).
pub uninterp spec fn regex_capture(pattern: Seq<char>, text: Seq<char>, group: nat) -> Option<
    Seq<char>,
>;

/// `regex::Regex`, a compiled expression, carried opaquely inside
/// `CompiledRegex`.
#[verifier::external_type_specification]
#[verifier::external_body]
pub struct ExRegex(regex::Regex);

/// A regular expression that compiled, kept beside its pattern. Both fields
/// are private and set together only by `compile_regex`, so the queries
/// below, which run the compiled form, are stated over the pattern.
pub struct CompiledRegex {
    pattern: String,
    compiled: regex::Regex,
}

impl CompiledRegex {
    /// The pattern the expression was compiled from.
    pub closed spec fn pattern_view(&self) -> Seq<char> {
        self.pattern@
    }
}

/// Compiles `pattern` (`regex::Regex::new`); `None` when it is not a valid
/// regular expression.
#[verifier::external_body]
fn compile_regex(pattern: &str) -> (r: Option<CompiledRegex>)
    ensures
        r is Some <==> regex_compiles(pattern@),
        r matches Some(c) ==> c.pattern_view() == pattern@,
{
    match regex::Regex::new(pattern) {
        Ok(compiled) => Some(CompiledRegex { pattern: pattern.to_string(), compiled }),
        Err(_) => None,
    }
}

/// Whether the expression matches somewhere in `text` (`Regex::is_match`).
#[verifier::external_body]
fn is_match_in(re: &CompiledRegex, text: &str) -> (r: bool)
    ensures
        r == regex_is_match(re.pattern_view(), text@),
{
    re.compiled.is_match(text)
}

/// Capture group `group` of the first match of the expression in `text`
/// (`Regex::captures`, `Captures::get`, `Match::as_str`).
#[verifier::external_body]
fn capture_in(re: &CompiledRegex, text: &str, group: usize) -> (r: Option<String>)
    ensures
        match regex_capture(re.pattern_view(), text@, group as nat) {
            Some(s) => r matches Some(t) && t@ == s,
            None => r is None,
        },
{
    match re.compiled.captures(text) {
        Some(caps) => match caps.get(group) {
            Some(m) => Some(m.as_str().to_string()),
            None => None,
        },
        None => None,
    }
}

/// Whether `pattern` compiles and matches somewhere in `text`.
fn pattern_matches(pattern: &str, text: &str) -> (r: bool)
    ensures
        r == route_matches(pattern@, text@),
{
    match compile_regex(pattern) {
        Some(re) => is_match_in(&re, text),
        None => false,
    }
}

/// The part of `text` that group `group` of `pattern` captures: the text, or
/// an error when the pattern finds nothing there (or does not compile).
pub fn match_content(text: &str, pattern: &str, group: usize) -> (r: Result<String, Error>)
    ensures
        match r {
            Ok(s) => regex_compiles(pattern@) && regex_capture(pattern@, text@, group as nat)
                == Some(s@),
            Err(e) => (!regex_compiles(pattern@) || regex_capture(pattern@, text@, group as nat)
                is None) && e.message@ == no_content_message(),
        },
{
    let found = match compile_regex(pattern) {
        Some(re) => capture_in(&re, text, group),
        None => None,
    };
    match found {
        Some(s) => Ok(s),
        None => {
            let e = Error::msg("No crypro code found");
            proof {
                reveal_strlit("No crypro code found");
            }
            Err(e)
        },
    }
}

/// The message of a failed `match_content`.
pub open spec fn no_content_message() -> Seq<char> {
    "No crypro code found"@
}

/// A pattern that compiles and matches `text`.
pub open spec fn route_matches(pattern: Seq<char>, text: Seq<char>) -> bool {
    regex_compiles(pattern) && regex_is_match(pattern, text)
}

/// A source domain, the pattern of its comic pages, the pattern of its
/// chapter pages.
pub type RouteView = (Seq<char>, Seq<char>, Seq<char>);

/// The pattern of the pages of a kind that a source does not have: it
/// matches no URL.
pub open spec fn no_page_pattern() -> Seq<char> {
    "^-NONE-$"@
}

/// The pattern of URLs that start with `http://` or `https://` followed by
/// what `rest` matches.
pub open spec fn web_pattern(rest: Seq<char>) -> Seq<char> {
    "^https?://"@ + rest
}

/// The pattern of a kind of page: `rest` after the scheme, or none.
pub open spec fn page_pattern(rest: Option<Seq<char>>) -> Seq<char> {
    match rest {
        Some(r) => web_pattern(r),
        None => no_page_pattern(),
    }
}

/// Each known source: its domain, and what follows the scheme in URLs of
/// its comic pages and of its chapter pages (`None` where it has none).
pub open spec fn route_sources() -> Seq<(Seq<char>, Option<Seq<char>>, Option<Seq<char>>)> {
    seq![
        (r#"www.cartoonmad.com"#@, Some(r#"www\.cartoonmad\.com/comic/\d{1,5}\.html"#@), Some(r#"www\.cartoonmad\.com/comic/\d{11,}.html"#@)),
        (r#"www.dm5.com"#@, Some(r#"www\.dm5\.com/[^/]+/"#@), Some(r#"www\.dm5\.com/m\d+/"#@)),
        (r#"manhua.dmzj.com"#@, Some(r#"manhua\.dmzj\.com/[^/]+/"#@), Some(r#"manhua\.dmzj\.com/[^/]+/\d+\.shtml"#@)),
        (r#"e-hentai.org"#@, None, Some(r#"e-hentai\.org/g/\d+/[^/]+/"#@)),
        (r#"18h.animezilla.com"#@, None, Some(r#"18h\.animezilla\.com/manga/\d+"#@)),
        (r#"www.hhimm.com"#@, Some(r#"www\.hhimm\.com/manhua/\d+\.html"#@), Some(r#"www\.hhimm\.com/cool\d+/\d+\.html"#@)),
        (r#"comic.kukudm.com"#@, Some(r#"comic\.kukudm\.com/comiclist/\d+/index.htm"#@), Some(r#"comic\d?\.kukudm\.com/comiclist/\d+/\d+/\d+.htm"#@)),
        (r#"lhscan.net"#@, Some(r#"lhscan\.net/manga-.+\.html"#@), Some(r#"lhscan\.net/read-.+\.html"#@)),
        (r#"www.luscious.net"#@, None, Some(r#"www\.luscious\.net/albums/.+"#@)),
        (r#"manganelo.com"#@, Some(r#"manganelo\.com/manga/.+"#@), Some(r#"manganelo\.com/chapter/[^/]+/chapter_.+"#@)),
        (r#"www.manhuadb.com"#@, Some(r#"www\.manhuadb\.com/manhua/.+"#@), Some(r#"www\.manhuadb\.com/manhua/\d+/\d+_\d+\.html"#@)),
        (r#"www.manhuadui.com"#@, Some(r#"www\.manhuadui\.com/manhua/.+"#@), Some(r#"www\.manhuadui\.com/manhua/[^/]+/\d+\.html"#@)),
        (r#"www.manhuagui.com"#@, Some(r#"www\.manhuagui\.com/comic/\d+/"#@), Some(r#"www\.manhuagui\.com/comic/\d+/\d+\.html"#@)),
        (r#"www.manhuaren.com"#@, Some(r#"www\.manhuaren\.com/manhua-[^/]+/"#@), Some(r#"www\.manhuaren\.com/m\d+/"#@)),
        (r#"www.177pic.info"#@, None, Some(r#"www\.177pic\.info/html/\d+/\d+/\d+\.html"#@)),
        (r#"www.qkmh5.com"#@, Some(r#"www\.qkmh5\.com/mh/[^\.]+\.html"#@), Some(r#"www\.qkmh5\.com/mm/\d+/\d+\.html"#@)),
        (r#"www.2animx.com"#@, Some(r#"www\.2animx\.com/index-comic-name-.+-id-\d+"#@), Some(r#"www\.2animx\.com/index-look-name-.+-cid-\d+-id-\d+"#@)),
        (r#"comic.veryim.com"#@, Some(r#"comic\.veryim\.com/[^/]+/\d+/"#@), Some(r#"comic\.veryim\.com/[^/]+/\d+/\d+\.html"#@)),
        (r#"www.177mh.net"#@, Some(r#"www\.177mh\.net/colist_\d+\.html"#@), Some(r#"www.177mh.net/\d+/\d+\.html"#@)),
        (r#"8comic.se"#@, None, Some(r#"8comic\.se/\d+"#@)),
        (r#"www.bidongmh.com"#@, Some(r#"www\.bidongmh\.com/book/\d+"#@), Some(r#"www\.bidongmh\.com/chapter/\d+"#@)),
        (r#"www.bnmanhua.com"#@, Some(r#"www\.bnmanhua\.com/comic/\d+\.html"#@), Some(r#"www\.bnmanhua\.com/comic/\d+/\d+\.html"#@)),
        (r#"www.comico.com.tw"#@, Some(r#"www\.comico\.com\.tw/challenge/\d+/"#@), Some(r#"www\.comico\.com\.tw/challenge/\d+/\d+/"#@)),
        (r#"www.gufengmh8.com"#@, Some(r#"www\.gufengmh8\.com/manhua/[^/]+/"#@), Some(r#"www\.gufengmh8\.com/manhua/[^/]+/\d+\.html"#@)),
        (r#"c-upp.com"#@, None, Some(r#"c-upp\.com/([^/]+/)?s/\d+"#@)),
        (r#"www.pufei8.com"#@, Some(r#"www\.pufei8\.com/manhua/\d+/"#@), Some(r#"www\.pufei8\.com/manhua/\d+/\d+\.html"#@)),
        (r#"www.kuaikanmanhua.com"#@, Some(r#"www\.kuaikanmanhua\.com/web/topic/\d+"#@), Some(r#"www\.kuaikanmanhua\.com/web/comic/\d+"#@)),
        (r#"comic.ikkdm.com"#@, Some(r#"comic\.ikkdm\.com/comiclist/\d+/index\.htm"#@), Some(r#"comic\d?\.ikkdm\.com/comiclist/\d+/\d+/\d+\.htm"#@)),
        (r#"loveheaven.net"#@, Some(r#"loveheaven\.net/manga-.+\.html"#@), Some(r#"loveheaven\.net/read-.+\.html"#@)),
        (r#"www.mangabz.com"#@, Some(r#"www\.mangabz\.com/\d+bz/"#@), Some(r#"www\.mangabz\.com/m\d+/"#@)),
        (r#"www.manhuapu.com"#@, Some(r#"www\.manhuapu\.com/[^/]+/[^/]+/"#@), Some(r#"www\.manhuapu\.com/[^/]+/[^/]+/\d+\.html"#@)),
        (r#"nhentai.net"#@, None, Some(r#"nhentai\.net/g/\d+"#@)),
        (r#"9hentai.com"#@, None, Some(r#"9hentai\.com/g/\d+"#@)),
        (r#"www.90mh.com"#@, Some(r#"www\.90mh\.com/manhua/[^/]+/"#@), Some(r#"www\.90mh\.com/manhua/[^/]+/\d+\.html"#@)),
        (r#"www.onemanhua.com"#@, Some(r#"www\.onemanhua\.com/\d+/"#@), Some(r#"www\.onemanhua\.com/\d+/\d+/\d+\.html"#@)),
        (r#"www.qimiaomh.com"#@, Some(r#"www\.qimiaomh\.com/manhua/\d+\.html"#@), Some(r#"www\.qimiaomh\.com/manhua/\d+/\d+\.html"#@)),
        (r#"www.tohomh123.com"#@, Some(r#"www\.tohomh123\.com/[^/]+/"#@), Some(r#"www\.tohomh123\.com/[^/]+/\d+\.html"#@)),
        (r#"twhentai.com"#@, None, Some(r#"twhentai\.com/hentai_doujin/\d+"#@)),
        (r#"www.wnacg.org"#@, None, Some(r#"www\.wnacg\.org/photos-index-aid-\d+\.html"#@)),
        (r#"www.wuqimh.com"#@, Some(r#"www\.wuqimh\.com/\d+/"#@), Some(r#"www\.wuqimh\.com/\d+/\d+\.html"#@))
    ]
}

/// The routes of all known sources, in the order they are tried.
pub open spec fn route_table() -> Seq<RouteView> {
    Seq::new(
        route_sources().len(),
        |i: int|
            (
                route_sources()[i].0,
                page_pattern(route_sources()[i].1),
                page_pattern(route_sources()[i].2),
            ),
    )
}

/// The first route whose chapter pattern or comic pattern matches `url`,
/// trying the chapter pattern of a route before its comic pattern: the
/// domain and whether the URL is a chapter page.
pub open spec fn first_route(table: Seq<RouteView>, url: Seq<char>) -> Option<(Seq<char>, bool)>
    decreases table.len(),
{
    if table.len() == 0 {
        None
    } else if route_matches(table[0].2, url) {
        Some((table[0].0, true))
    } else if route_matches(table[0].1, url) {
        Some((table[0].0, false))
    } else {
        first_route(table.drop_first(), url)
    }
}

/// A source domain with the kind of page a URL points to.
#[derive(Debug, PartialEq, Eq)]
pub enum DomainRoute {
    Comic(String),
    Chapter(String),
}

/// One entry of the route table.
pub struct Route {
    pub domain: String,
    pub comic_re: String,
    pub chapter_re: String,
}

impl Route {
    pub open spec fn spec_view(&self) -> RouteView {
        (self.domain@, self.comic_re@, self.chapter_re@)
    }
}

/// The pattern of a kind of page, as `page_pattern` gives it.
fn pattern(rest: Option<&str>) -> (r: String)
    ensures
        r@ == page_pattern(
            match rest {
                Some(t) => Some(t@),
                None => None,
            },
        ),
{
    match rest {
        Some(t) => concat("^https?://", t),
        None => String::from_str("^-NONE-$"),
    }
}

fn route(domain: &str, comic: Option<&str>, chapter: Option<&str>) -> (r: Route)
    ensures
        r.spec_view() == (
            domain@,
            page_pattern(
                match comic {
                    Some(t) => Some(t@),
                    None => None,
                },
            ),
            page_pattern(
                match chapter {
                    Some(t) => Some(t@),
                    None => None,
                },
            ),
        ),
{
    Route { domain: String::from_str(domain), comic_re: pattern(comic), chapter_re: pattern(chapter) }
}

/// The route table, in the order routes are tried.
#[verifier::rlimit(50)]
pub fn routes() -> (r: Vec<Route>)
    ensures
        r@.map_values(|x: Route| x.spec_view()) == route_table(),
{
    let mut r: Vec<Route> = Vec::new();
    r.push(route(r#"www.cartoonmad.com"#, Some(r#"www\.cartoonmad\.com/comic/\d{1,5}\.html"#), Some(r#"www\.cartoonmad\.com/comic/\d{11,}.html"#)));
    r.push(route(r#"www.dm5.com"#, Some(r#"www\.dm5\.com/[^/]+/"#), Some(r#"www\.dm5\.com/m\d+/"#)));
    r.push(route(r#"manhua.dmzj.com"#, Some(r#"manhua\.dmzj\.com/[^/]+/"#), Some(r#"manhua\.dmzj\.com/[^/]+/\d+\.shtml"#)));
    r.push(route(r#"e-hentai.org"#, None, Some(r#"e-hentai\.org/g/\d+/[^/]+/"#)));
    r.push(route(r#"18h.animezilla.com"#, None, Some(r#"18h\.animezilla\.com/manga/\d+"#)));
    r.push(route(r#"www.hhimm.com"#, Some(r#"www\.hhimm\.com/manhua/\d+\.html"#), Some(r#"www\.hhimm\.com/cool\d+/\d+\.html"#)));
    r.push(route(r#"comic.kukudm.com"#, Some(r#"comic\.kukudm\.com/comiclist/\d+/index.htm"#), Some(r#"comic\d?\.kukudm\.com/comiclist/\d+/\d+/\d+.htm"#)));
    r.push(route(r#"lhscan.net"#, Some(r#"lhscan\.net/manga-.+\.html"#), Some(r#"lhscan\.net/read-.+\.html"#)));
    r.push(route(r#"www.luscious.net"#, None, Some(r#"www\.luscious\.net/albums/.+"#)));
    r.push(route(r#"manganelo.com"#, Some(r#"manganelo\.com/manga/.+"#), Some(r#"manganelo\.com/chapter/[^/]+/chapter_.+"#)));
    r.push(route(r#"www.manhuadb.com"#, Some(r#"www\.manhuadb\.com/manhua/.+"#), Some(r#"www\.manhuadb\.com/manhua/\d+/\d+_\d+\.html"#)));
    r.push(route(r#"www.manhuadui.com"#, Some(r#"www\.manhuadui\.com/manhua/.+"#), Some(r#"www\.manhuadui\.com/manhua/[^/]+/\d+\.html"#)));
    r.push(route(r#"www.manhuagui.com"#, Some(r#"www\.manhuagui\.com/comic/\d+/"#), Some(r#"www\.manhuagui\.com/comic/\d+/\d+\.html"#)));
    r.push(route(r#"www.manhuaren.com"#, Some(r#"www\.manhuaren\.com/manhua-[^/]+/"#), Some(r#"www\.manhuaren\.com/m\d+/"#)));
    r.push(route(r#"www.177pic.info"#, None, Some(r#"www\.177pic\.info/html/\d+/\d+/\d+\.html"#)));
    r.push(route(r#"www.qkmh5.com"#, Some(r#"www\.qkmh5\.com/mh/[^\.]+\.html"#), Some(r#"www\.qkmh5\.com/mm/\d+/\d+\.html"#)));
    r.push(route(r#"www.2animx.com"#, Some(r#"www\.2animx\.com/index-comic-name-.+-id-\d+"#), Some(r#"www\.2animx\.com/index-look-name-.+-cid-\d+-id-\d+"#)));
    r.push(route(r#"comic.veryim.com"#, Some(r#"comic\.veryim\.com/[^/]+/\d+/"#), Some(r#"comic\.veryim\.com/[^/]+/\d+/\d+\.html"#)));
    r.push(route(r#"www.177mh.net"#, Some(r#"www\.177mh\.net/colist_\d+\.html"#), Some(r#"www.177mh.net/\d+/\d+\.html"#)));
    r.push(route(r#"8comic.se"#, None, Some(r#"8comic\.se/\d+"#)));
    r.push(route(r#"www.bidongmh.com"#, Some(r#"www\.bidongmh\.com/book/\d+"#), Some(r#"www\.bidongmh\.com/chapter/\d+"#)));
    r.push(route(r#"www.bnmanhua.com"#, Some(r#"www\.bnmanhua\.com/comic/\d+\.html"#), Some(r#"www\.bnmanhua\.com/comic/\d+/\d+\.html"#)));
    r.push(route(r#"www.comico.com.tw"#, Some(r#"www\.comico\.com\.tw/challenge/\d+/"#), Some(r#"www\.comico\.com\.tw/challenge/\d+/\d+/"#)));
    r.push(route(r#"www.gufengmh8.com"#, Some(r#"www\.gufengmh8\.com/manhua/[^/]+/"#), Some(r#"www\.gufengmh8\.com/manhua/[^/]+/\d+\.html"#)));
    r.push(route(r#"c-upp.com"#, None, Some(r#"c-upp\.com/([^/]+/)?s/\d+"#)));
    r.push(route(r#"www.pufei8.com"#, Some(r#"www\.pufei8\.com/manhua/\d+/"#), Some(r#"www\.pufei8\.com/manhua/\d+/\d+\.html"#)));
    r.push(route(r#"www.kuaikanmanhua.com"#, Some(r#"www\.kuaikanmanhua\.com/web/topic/\d+"#), Some(r#"www\.kuaikanmanhua\.com/web/comic/\d+"#)));
    r.push(route(r#"comic.ikkdm.com"#, Some(r#"comic\.ikkdm\.com/comiclist/\d+/index\.htm"#), Some(r#"comic\d?\.ikkdm\.com/comiclist/\d+/\d+/\d+\.htm"#)));
    r.push(route(r#"loveheaven.net"#, Some(r#"loveheaven\.net/manga-.+\.html"#), Some(r#"loveheaven\.net/read-.+\.html"#)));
    r.push(route(r#"www.mangabz.com"#, Some(r#"www\.mangabz\.com/\d+bz/"#), Some(r#"www\.mangabz\.com/m\d+/"#)));
    r.push(route(r#"www.manhuapu.com"#, Some(r#"www\.manhuapu\.com/[^/]+/[^/]+/"#), Some(r#"www\.manhuapu\.com/[^/]+/[^/]+/\d+\.html"#)));
    r.push(route(r#"nhentai.net"#, None, Some(r#"nhentai\.net/g/\d+"#)));
    r.push(route(r#"9hentai.com"#, None, Some(r#"9hentai\.com/g/\d+"#)));
    r.push(route(r#"www.90mh.com"#, Some(r#"www\.90mh\.com/manhua/[^/]+/"#), Some(r#"www\.90mh\.com/manhua/[^/]+/\d+\.html"#)));
    r.push(route(r#"www.onemanhua.com"#, Some(r#"www\.onemanhua\.com/\d+/"#), Some(r#"www\.onemanhua\.com/\d+/\d+/\d+\.html"#)));
    r.push(route(r#"www.qimiaomh.com"#, Some(r#"www\.qimiaomh\.com/manhua/\d+\.html"#), Some(r#"www\.qimiaomh\.com/manhua/\d+/\d+\.html"#)));
    r.push(route(r#"www.tohomh123.com"#, Some(r#"www\.tohomh123\.com/[^/]+/"#), Some(r#"www\.tohomh123\.com/[^/]+/\d+\.html"#)));
    r.push(route(r#"twhentai.com"#, None, Some(r#"twhentai\.com/hentai_doujin/\d+"#)));
    r.push(route(r#"www.wnacg.org"#, None, Some(r#"www\.wnacg\.org/photos-index-aid-\d+\.html"#)));
    r.push(route(r#"www.wuqimh.com"#, Some(r#"www\.wuqimh\.com/\d+/"#), Some(r#"www\.wuqimh\.com/\d+/\d+\.html"#)));
    assert(r@.map_values(|x: Route| x.spec_view()) =~= route_table());
    r
}

/// The first route of `table` that matches `url`, as `first_route` says.
pub fn route_in(table: &Vec<Route>, url: &str) -> (r: Option<DomainRoute>)
    ensures
        match first_route(table@.map_values(|x: Route| x.spec_view()), url@) {
            None => r is None,
            Some((domain, true)) => r matches Some(DomainRoute::Chapter(d)) && d@ == domain,
            Some((domain, false)) => r matches Some(DomainRoute::Comic(d)) && d@ == domain,
        },
{
    let ghost all = table@.map_values(|x: Route| x.spec_view());
    let mut i: usize = 0;
    assert(all.skip(0) == all);
    while i < table.len()
        invariant
            i <= table@.len(),
            all == table@.map_values(|x: Route| x.spec_view()),
            first_route(all, url@) == first_route(all.skip(i as int), url@),
        decreases table@.len() - i,
    {
        let ghost rest = all.skip(i as int);
        assert(rest[0] == table@[i as int].spec_view());
        assert(rest.drop_first() == all.skip(i + 1));
        let entry = &table[i];
        if pattern_matches(entry.chapter_re.as_str(), url) {
            return Some(DomainRoute::Chapter(entry.domain.clone()));
        }
        if pattern_matches(entry.comic_re.as_str(), url) {
            return Some(DomainRoute::Comic(entry.domain.clone()));
        }
        i = i + 1;
    }
    None
}

/// The source and kind of page of `url`: the first route, in table order,
/// whose chapter pattern (tried first) or comic pattern matches.
pub fn domain_route(url: &str) -> (r: Option<DomainRoute>)
    ensures
        match first_route(route_table(), url@) {
            None => r is None,
            Some((domain, true)) => r matches Some(DomainRoute::Chapter(d)) && d@ == domain,
            Some((domain, false)) => r matches Some(DomainRoute::Comic(d)) && d@ == domain,
        },
{
    let table = routes();
    route_in(&table, url)
}

/// The address of page `page` of a paged listing: the first page has its
/// own address; any later page is `next` with each `{}` replaced by the
/// page number.
pub open spec fn page_address(first: Seq<char>, next: Seq<char>, page: u32) -> Seq<char> {
    if page > 1 {
        replaced(next, seq!['{', '}'], decimal(page as nat))
    } else {
        first
    }
}

/// The address of page `page` of a paged listing.
pub fn page_url(first: &str, next: &str, page: u32) -> (r: String)
    ensures
        r@ == page_address(first@, next@, page),
{
    if page > 1 {
        let number = decimal_string(page as u64);
        let placeholder = "{}";
        proof {
            reveal_strlit("{}");
            assert(placeholder@ =~= seq!['{', '}']);
        }
        replace_all(next, placeholder, number.as_str())
    } else {
        String::from_str(first)
    }
}

} // verus!
