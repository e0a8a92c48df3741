use mikack::routes::{domain_route, DomainRoute};

#[test]
fn extractors_test_routes() {
    assert_eq!(
        DomainRoute::Comic(String::from("www.cartoonmad.com")),
        domain_route("https://www.cartoonmad.com/comic/8460.html").unwrap()
    );
    assert_eq!(
        DomainRoute::Chapter(String::from("www.cartoonmad.com")),
        domain_route("https://www.cartoonmad.com/comic/846000012038001.html").unwrap()
    );
    assert_eq!(
        DomainRoute::Comic(String::from("www.dm5.com")),
        domain_route("http://www.dm5.com/manhua-yuanzun/").unwrap()
    );
    assert_eq!(
        DomainRoute::Chapter(String::from("www.dm5.com")),
        domain_route("http://www.dm5.com/m578500/").unwrap()
    );
    assert_eq!(
        DomainRoute::Comic(String::from("manhua.dmzj.com")),
        domain_route("http://manhua.dmzj.com/yifuyaozhemechuan/").unwrap()
    );
    assert_eq!(
        DomainRoute::Chapter(String::from("manhua.dmzj.com")),
        domain_route("http://manhua.dmzj.com/yifuyaozhemechuan/56275.shtml#@page=1").unwrap()
    );
    assert_eq!(
        DomainRoute::Chapter(String::from("e-hentai.org")),
        domain_route("https://e-hentai.org/g/1552929/c9f7a6ad71/").unwrap()
    );
    assert_eq!(
        DomainRoute::Chapter(String::from("18h.animezilla.com")),
        domain_route("https://18h.animezilla.com/manga/2940").unwrap()
    );
    assert_eq!(
        DomainRoute::Comic(String::from("www.hhimm.com")),
        domain_route("http://www.hhimm.com/manhua/40325.html").unwrap()
    );
    assert_eq!(
        DomainRoute::Chapter(String::from("www.hhimm.com")),
        domain_route("http://www.hhimm.com/cool373925/1.html?s=3").unwrap()
    );
    assert_eq!(
        DomainRoute::Comic(String::from("comic.kukudm.com")),
        domain_route("https://comic.kukudm.com/comiclist/2555/index.htm").unwrap()
    );
    assert_eq!(
        DomainRoute::Chapter(String::from("comic.kukudm.com")),
        domain_route("https://comic.kukudm.com/comiclist/2555/66929/1.htm").unwrap()
    );
    assert_eq!(
        DomainRoute::Chapter(String::from("comic.kukudm.com")),
        domain_route("https://comic2.kukudm.com/comiclist/2555/66929/1.htm").unwrap()
    );
    assert_eq!(
        DomainRoute::Comic(String::from("lhscan.net")),
        domain_route("https://lhscan.net/manga-ichinichi-gaishutsuroku-hanchou-raw.html").unwrap()
    );
    assert_eq!(
        DomainRoute::Chapter(String::from("lhscan.net")),
        domain_route("https://lhscan.net/read-ichinichi-gaishutsuroku-hanchou-raw-chapter-54.html")
            .unwrap()
    );
    assert_eq!(
        DomainRoute::Chapter(String::from("www.luscious.net")),
        domain_route("https://www.luscious.net/albums/teitoku-wa-semai-toko-suki-kantai-collection-kanco_363520/")
            .unwrap()
    );
    assert_eq!(
        DomainRoute::Comic(String::from("manganelo.com")),
        domain_route("https://manganelo.com/manga/hgj2047065412").unwrap()
    );
    assert_eq!(
        DomainRoute::Chapter(String::from("manganelo.com")),
        domain_route("https://manganelo.com/chapter/hgj2047065412/chapter_43").unwrap()
    );
    assert_eq!(
        DomainRoute::Comic(String::from("www.manhuadb.com")),
        domain_route("https://www.manhuadb.com/manhua/10906").unwrap()
    );
    assert_eq!(
        DomainRoute::Chapter(String::from("www.manhuadb.com")),
        domain_route("https://www.manhuadb.com/manhua/10906/13071_183254.html").unwrap()
    );
    assert_eq!(
        DomainRoute::Comic(String::from("www.manhuadui.com")),
        domain_route("https://www.manhuadui.com/manhua/jingjiechufazhe/").unwrap()
    );
    assert_eq!(
        DomainRoute::Chapter(String::from("www.manhuadui.com")),
        domain_route("https://www.manhuadui.com/manhua/jingjiechufazhe/435634.html").unwrap()
    );
    assert_eq!(
        DomainRoute::Comic(String::from("www.manhuagui.com")),
        domain_route("https://www.manhuagui.com/comic/20515/").unwrap()
    );
    assert_eq!(
        DomainRoute::Chapter(String::from("www.manhuagui.com")),
        domain_route("https://www.manhuagui.com/comic/20515/469245.html").unwrap()
    );
    assert_eq!(
        DomainRoute::Comic(String::from("www.manhuaren.com")),
        domain_route("https://www.manhuaren.com/manhua-fengyunquanji/").unwrap()
    );
    assert_eq!(
        DomainRoute::Chapter(String::from("www.manhuaren.com")),
        domain_route("https://www.manhuaren.com/m188947/").unwrap()
    );
    assert_eq!(
        DomainRoute::Chapter(String::from("www.177pic.info")),
        domain_route("http://www.177pic.info/html/2020/01/3307768.html").unwrap()
    );
    assert_eq!(
        DomainRoute::Comic(String::from("www.qkmh5.com")),
        domain_route("http://www.qkmh5.com/mh/yaojingdeweiba.html").unwrap()
    );
    assert_eq!(
        DomainRoute::Chapter(String::from("www.qkmh5.com")),
        domain_route("http://www.qkmh5.com/mm/1807/461806.html").unwrap()
    );
    assert_eq!(
        DomainRoute::Comic(String::from("www.2animx.com")),
        domain_route(
            "http://www.2animx.com/index-comic-name-%E9%A2%A8%E9%9B%B2%E5%85%A8%E9%9B%86-id-7212"
        )
        .unwrap()
    );
    assert_eq!(
        DomainRoute::Chapter(String::from("www.2animx.com")),
        domain_route("http://www.2animx.com/index-look-name-%E9%A2%A8%E9%9B%B2%E5%85%A8%E9%9B%86-cid-7212-id-88034").unwrap()
    );
    assert_eq!(
        DomainRoute::Comic(String::from("comic.veryim.com")),
        domain_route("http://comic.veryim.com/qihuan/57238/").unwrap()
    );
    assert_eq!(
        DomainRoute::Chapter(String::from("comic.veryim.com")),
        domain_route("http://comic.veryim.com/qihuan/57238/883902.html").unwrap()
    );
    assert_eq!(
        DomainRoute::Comic(String::from("www.177mh.net")),
        domain_route("https://www.177mh.net/colist_244241.html").unwrap()
    );
    assert_eq!(
        DomainRoute::Chapter(String::from("www.177mh.net")),
        domain_route("https://www.177mh.net/202001/437290.html").unwrap()
    );
    assert_eq!(
        DomainRoute::Chapter(String::from("8comic.se")),
        domain_route("http://8comic.se/879/").unwrap()
    );
}

#[test]
fn routes_test_routes() {
    assert_eq!(
        Some(DomainRoute::Comic(String::from("www.bidongmh.com"))),
        domain_route("https://www.bidongmh.com/book/256")
    );
    assert_eq!(
        DomainRoute::Chapter(String::from("www.bidongmh.com")),
        domain_route("https://www.bidongmh.com/chapter/6807").unwrap()
    );
    assert_eq!(
        Some(DomainRoute::Comic(String::from("www.bnmanhua.com"))),
        domain_route("https://www.bnmanhua.com/comic/15195.html")
    );
    assert_eq!(
        DomainRoute::Chapter(String::from("www.bnmanhua.com")),
        domain_route("https://www.bnmanhua.com/comic/15195/421378.html").unwrap()
    );
    assert_eq!(
        Some(DomainRoute::Comic(String::from("www.cartoonmad.com"))),
        domain_route("https://www.cartoonmad.com/comic/8460.html")
    );
    assert_eq!(
        DomainRoute::Chapter(String::from("www.cartoonmad.com")),
        domain_route("https://www.cartoonmad.com/comic/846000012038001.html").unwrap()
    );
    assert_eq!(
        Some(DomainRoute::Comic(String::from("www.comico.com.tw"))),
        domain_route("http://www.comico.com.tw/challenge/3711/")
    );
    assert_eq!(
        DomainRoute::Chapter(String::from("www.comico.com.tw")),
        domain_route("http://www.comico.com.tw/challenge/3711/1/").unwrap()
    );
    assert_eq!(
        Some(DomainRoute::Comic(String::from("www.dm5.com"))),
        domain_route("http://www.dm5.com/manhua-yuanzun/")
    );
    assert_eq!(
        DomainRoute::Chapter(String::from("www.dm5.com")),
        domain_route("http://www.dm5.com/m578500/").unwrap()
    );
    assert_eq!(
        Some(DomainRoute::Comic(String::from("manhua.dmzj.com"))),
        domain_route("http://manhua.dmzj.com/yifuyaozhemechuan/")
    );
    assert_eq!(
        DomainRoute::Chapter(String::from("manhua.dmzj.com")),
        domain_route("http://manhua.dmzj.com/yifuyaozhemechuan/56275.shtml").unwrap()
    );
    assert_eq!(
        DomainRoute::Chapter(String::from("e-hentai.org")),
        domain_route("https://e-hentai.org/g/1552929/c9f7a6ad71/").unwrap()
    );
    assert_eq!(
        DomainRoute::Chapter(String::from("18h.animezilla.com")),
        domain_route("https://18h.animezilla.com/manga/2940").unwrap()
    );
    assert_eq!(
        Some(DomainRoute::Comic(String::from("www.gufengmh8.com"))),
        domain_route("https://www.gufengmh8.com/manhua/dongjingshishiguire/")
    );
    assert_eq!(
        DomainRoute::Chapter(String::from("www.gufengmh8.com")),
        domain_route("https://www.gufengmh8.com/manhua/dongjingshishiguire/8519.html").unwrap()
    );
    assert_eq!(
        DomainRoute::Chapter(String::from("c-upp.com")),
        domain_route("https://c-upp.com/ja/s/315668/").unwrap()
    );
    assert_eq!(
        Some(DomainRoute::Comic(String::from("www.hhimm.com"))),
        domain_route("http://www.hhimm.com/manhua/40325.html")
    );
    assert_eq!(
        DomainRoute::Chapter(String::from("www.hhimm.com")),
        domain_route("http://www.hhimm.com/cool373925/1.html?s=3").unwrap()
    );
    assert_eq!(
        Some(DomainRoute::Comic(String::from("www.pufei8.com"))),
        domain_route("http://www.pufei8.com/manhua/600/index.html")
    );
    assert_eq!(
        DomainRoute::Chapter(String::from("www.pufei8.com")),
        domain_route("http://www.pufei8.com/manhua/600/45661.html").unwrap()
    );
    assert_eq!(
        Some(DomainRoute::Comic(String::from("www.kuaikanmanhua.com"))),
        domain_route("https://www.kuaikanmanhua.com/web/topic/544/")
    );
    assert_eq!(
        DomainRoute::Chapter(String::from("www.kuaikanmanhua.com")),
        domain_route("https://www.kuaikanmanhua.com/web/comic/5471/").unwrap()
    );
    assert_eq!(
        Some(DomainRoute::Comic(String::from("comic.ikkdm.com"))),
        domain_route("http://comic.ikkdm.com/comiclist/2555/index.htm")
    );
    assert_eq!(
        DomainRoute::Chapter(String::from("comic.ikkdm.com")),
        domain_route("http://comic.ikkdm.com/comiclist/2555/66929/1.htm").unwrap()
    );
    assert_eq!(
        Some(DomainRoute::Comic(String::from("loveheaven.net"))),
        domain_route("https://loveheaven.net/manga-ichinichi-gaishutsuroku-hanchou-raw.html")
    );
    assert_eq!(
        DomainRoute::Chapter(String::from("loveheaven.net")),
        domain_route("https://loveheaven.net/read-ichinichi-gaishutsuroku-hanchou-raw-chapter-54.html").unwrap()
    );
    assert_eq!(
        DomainRoute::Chapter(String::from("www.luscious.net")),
        domain_route("https://www.luscious.net/albums/teitoku-wa-semai-toko-suki-kantai-collection-kanco_363520/").unwrap()
    );
    assert_eq!(
        Some(DomainRoute::Comic(String::from("www.mangabz.com"))),
        domain_route("http://www.mangabz.com/565bz/")
    );
    assert_eq!(
        DomainRoute::Chapter(String::from("www.mangabz.com")),
        domain_route("http://www.mangabz.com/m93502/").unwrap()
    );
    assert_eq!(
        Some(DomainRoute::Comic(String::from("manganelo.com"))),
        domain_route("https://manganelo.com/manga/hgj2047065412")
    );
    assert_eq!(
        DomainRoute::Chapter(String::from("manganelo.com")),
        domain_route("https://manganelo.com/chapter/hgj2047065412/chapter_43").unwrap()
    );
    assert_eq!(
        Some(DomainRoute::Comic(String::from("www.manhuadb.com"))),
        domain_route("https://www.manhuadb.com/manhua/10906")
    );
    assert_eq!(
        DomainRoute::Chapter(String::from("www.manhuadb.com")),
        domain_route("https://www.manhuadb.com/manhua/10906/13071_183254.html").unwrap()
    );
    assert_eq!(
        Some(DomainRoute::Comic(String::from("www.manhuadui.com"))),
        domain_route("https://www.manhuadui.com/manhua/jingjiechufazhe/")
    );
    assert_eq!(
        DomainRoute::Chapter(String::from("www.manhuadui.com")),
        domain_route("https://www.manhuadui.com/manhua/jingjiechufazhe/435634.html").unwrap()
    );
    assert_eq!(
        Some(DomainRoute::Comic(String::from("www.manhuagui.com"))),
        domain_route("https://www.manhuagui.com/comic/20515/")
    );
    assert_eq!(
        DomainRoute::Chapter(String::from("www.manhuagui.com")),
        domain_route("https://www.manhuagui.com/comic/20515/469245.html").unwrap()
    );
    assert_eq!(
        Some(DomainRoute::Comic(String::from("www.manhuapu.com"))),
        domain_route("http://www.manhuapu.com/rexue/xiaxingjiutian/")
    );
    assert_eq!(
        DomainRoute::Chapter(String::from("www.manhuapu.com")),
        domain_route("http://www.manhuapu.com/rexue/xiaxingjiutian/719652.html").unwrap()
    );
    assert_eq!(
        DomainRoute::Chapter(String::from("nhentai.net")),
        domain_route("https://nhentai.net/g/300773/").unwrap()
    );
    assert_eq!(
        DomainRoute::Chapter(String::from("9hentai.com")),
        domain_route("https://9hentai.com/g/60726/").unwrap()
    );
    assert_eq!(
        Some(DomainRoute::Comic(String::from("www.90mh.com"))),
        domain_route("http://www.90mh.com/manhua/taguoriji/")
    );
    assert_eq!(
        DomainRoute::Chapter(String::from("www.90mh.com")),
        domain_route("http://www.90mh.com/manhua/taguoriji/127184.html").unwrap()
    );
    assert_eq!(
        DomainRoute::Chapter(String::from("www.177pic.info")),
        domain_route("http://www.177pic.info/html/2020/01/3307768.html").unwrap()
    );
    assert_eq!(
        Some(DomainRoute::Comic(String::from("www.onemanhua.com"))),
        domain_route("https://www.onemanhua.com/12436/")
    );
    assert_eq!(
        DomainRoute::Chapter(String::from("www.onemanhua.com")),
        domain_route("https://www.onemanhua.com/12436/1/1.html").unwrap()
    );
    assert_eq!(
        Some(DomainRoute::Comic(String::from("www.qimiaomh.com"))),
        domain_route("https://www.qimiaomh.com/manhua/6531.html")
    );
    assert_eq!(
        DomainRoute::Chapter(String::from("www.qimiaomh.com")),
        domain_route("https://www.qimiaomh.com/manhua/6531/1.html").unwrap()
    );
    assert_eq!(
        Some(DomainRoute::Comic(String::from("www.tohomh123.com"))),
        domain_route("https://www.tohomh123.com/guangzhizi/")
    );
    assert_eq!(
        DomainRoute::Chapter(String::from("www.tohomh123.com")),
        domain_route("https://www.tohomh123.com/guangzhizi/1.html").unwrap()
    );
    assert_eq!(
        DomainRoute::Chapter(String::from("twhentai.com")),
        domain_route("http://twhentai.com/hentai_doujin/68098/").unwrap()
    );
    assert_eq!(
        Some(DomainRoute::Comic(String::from("www.2animx.com"))),
        domain_route("http://www.2animx.com/index-comic-name-%E9%A2%A8%E9%9B%B2%E5%85%A8%E9%9B%86-id-7212")
    );
    assert_eq!(
        DomainRoute::Chapter(String::from("www.2animx.com")),
        domain_route("http://www.2animx.com/index-look-name-%E9%A2%A8%E9%9B%B2%E5%85%A8%E9%9B%86-cid-7212-id-88034").unwrap()
    );
    assert_eq!(
        DomainRoute::Chapter(String::from("www.wnacg.org")),
        domain_route("https://www.wnacg.org/photos-index-aid-94352.html").unwrap()
    );
    assert_eq!(
        Some(DomainRoute::Comic(String::from("www.wuqimh.com"))),
        domain_route("http://www.wuqimh.com/38157/")
    );
    assert_eq!(
        DomainRoute::Chapter(String::from("www.wuqimh.com")),
        domain_route("http://www.wuqimh.com/38157/01.html").unwrap()
    );
    assert_eq!(
        Some(DomainRoute::Comic(String::from("www.177mh.net"))),
        domain_route("https://www.177mh.net/colist_244241.html")
    );
    assert_eq!(
        DomainRoute::Chapter(String::from("www.177mh.net")),
        domain_route("https://www.177mh.net/202001/437290.html").unwrap()
    );
    assert_eq!(
        DomainRoute::Chapter(String::from("8comic.se")),
        domain_route("http://8comic.se/879/").unwrap()
    );
}
