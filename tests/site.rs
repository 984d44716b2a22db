use podsite::article::{Article, Metadata as ArticleMetadata};
use podsite::front::FrontMatter;
use podsite::item::Item;
use podsite::items::Items;
use podsite::page::{Metadata as PageMetadata, Page};
use podsite::render::{
    audio_url, clean_path, output_path, podcast_indices, public_dir, site_url, striptags, truncate,
};
use podsite::site::Layout;
use podsite::telegram::Telegram;
use podsite::mastodon::Mastodon;

#[test]
fn caption_quotes_become_italics() {
    assert_eq!(Telegram::prepare(r#"Este es un "título" de prueba"#), "Este es un <i>título</i> de prueba");
    assert_eq!(Telegram::prepare(r#""a" and "b" and "c"#), r#"<i>a</i> and <i>b</i> and "c"#);
    assert_eq!(Telegram::prepare("none"), "none");
    let t = Telegram::new("TOKEN", "CHAT");
    assert_eq!(t.method_url("sendAudio"), "https://api.telegram.org/botTOKEN/sendAudio");
}

#[test]
fn mastodon_addresses() {
    let m = Mastodon::new("https://mastodon.social", "abc");
    assert_eq!(m.statuses_url(), "https://mastodon.social/api/v1/statuses");
    assert_eq!(m.authorization(), "Bearer abc");
}

#[test]
fn text_filters() {
    assert_eq!(striptags("<p>Hi <b>there</b></p>".to_string()), "Hi there");
    assert_eq!(striptags("a > b".to_string()), "a  b");
    assert_eq!(truncate("héllo", 2), "hé");
    assert_eq!(truncate("abc", 5), "abc");
}

#[test]
fn paths() {
    assert_eq!(clean_path("/a/b/"), "a/b");
    assert_eq!(clean_path("a"), "a");
    assert_eq!(clean_path("/"), "");
    assert_eq!(public_dir("public", ""), "public");
    assert_eq!(public_dir("public", "blog"), "public/blog");
    assert_eq!(site_url(""), "");
    assert_eq!(site_url("/blog"), "/blog");
    assert_eq!(site_url("blog"), "/blog");
    assert_eq!(output_path("public/", "", None), "public/index.html");
    assert_eq!(output_path("public", "/slug/", None), "public/slug/index.html");
    assert_eq!(output_path("public", "", Some("feed.xml")), "public/feed.xml");
    assert_eq!(audio_url("ep1", "a.mp3"), "https://archive.org/download/ep1/a.mp3");
}

#[test]
fn article_and_page_reading() {
    let m = ArticleMetadata { title: "Hola Mundo".to_string(), date: "2022-12-10".to_string(), excerpt: String::new(), slug: String::new() };
    let front = FrontMatter { matter: String::new(), content: "Some *text*".to_string(), excerpt: None };
    let (a, save) = Article::from_parts(m, front);
    assert!(save);
    assert_eq!(a.get_filename(), "posts/hola-mundo.md");
    let p = a.get_post();
    assert_eq!(p.date, Some(1670630400));
    assert!(p.content.contains("<em>text</em>"));
    assert_eq!(p.excerpt, "Some *text*");
    let m = PageMetadata { title: "About".to_string(), date: "2022-12-10".to_string(), slug: "about".to_string() };
    let front = FrontMatter { matter: String::new(), content: "About me".to_string(), excerpt: None };
    let (pg, save) = Page::from_parts(m, front);
    assert!(!save);
    assert_eq!(pg.get_filename(), "pages/about.md");
    assert_eq!(pg.get_title(), "About");
    assert_eq!(pg.get_slug(), "about");
    assert_eq!(pg.get_date(), "2022-12-10");
    assert!(pg.get_post().layout == Layout::Page);
    let posts = vec![pg.get_post(), a.get_post()];
    assert!(podcast_indices(&posts).is_empty());
}

fn item(id: &str, mtime: &str) -> Item {
    let m = ArticleMetadata { title: id.to_string(), date: String::new(), excerpt: String::new(), slug: id.to_string() };
    let mut i = Item::from_article(Article { metadata: m, content: String::new() });
    i.mtime = mtime.to_string();
    i
}

#[test]
fn item_listing() {
    let mut items = Items::new(vec![item("a", "100")]);
    assert!(items.has_item(&item("a", "0")));
    assert!(!items.has_item(&item("b", "0")));
    items.add(&vec![item("b", "300"), item("a", "999"), item("c", "200"), item("b", "1")]);
    assert_eq!(items.len(), 3);
    assert_eq!(items.count(), 3);
    assert_eq!(items.get_last().get_identifier(), "b");
    assert_eq!(items.get_last().get_mtime(), "300");
    assert_eq!(item("x", "5").get_date(), Some(5));
    assert_eq!(item("x", "").get_date(), None);
    let p = item("x", "5").get_pocast();
    assert!(p.layout == Layout::Podcast);
    assert_eq!(p.date, Some(5));
}

#[test]
fn last_item_is_the_first_of_equal_times() {
    let items = Items::new(vec![item("a", "2"), item("b", "9"), item("c", "9"), item("d", "10")]);
    assert_eq!(items.get_last().get_identifier(), "b");
    let items = Items::new(vec![item("a", "")]);
    assert_eq!(items.get_last().get_identifier(), "a");
}

fn dated(slug: &str, date: Option<u64>) -> podsite::site::Post {
    podsite::site::Post {
        layout: Layout::Post,
        slug: slug.to_string(),
        excerpt: String::new(),
        title: String::new(),
        content: String::new(),
        subject: vec![],
        date,
        version: 0,
        identifier: String::new(),
        filename: String::new(),
        size: 0,
        length: 0,
        number: 0,
        downloads: 0,
    }
}

#[test]
fn documents_newest_first() {
    let posts = vec![
        dated("a", Some(10)),
        dated("b", None),
        dated("c", Some(30)),
        dated("d", Some(10)),
        dated("e", Some(20)),
    ];
    assert_eq!(podsite::render::newest_first(&posts), vec![2, 4, 0, 3, 1]);
    assert!(podsite::render::newest_first(&vec![]).is_empty());
}
