use news::collector::content::{check_link, extract_content, non_blank, ContentError};
use news::collector::sources::html::{
    begins_with_http, item_from_elements, Config as HtmlConfig, DateExtractor, Element, Getter, LinkExtractor,
    TextExtractor,
};
use news::collector::sources::rss::{self, channel_from_feed, data_from_feed, item_from_feed, Feed, FeedItem};
use news::collector::sources::{fetch, CollectError, Config, Item};
use news::collector::{select_new_items, with_contents};
use news::model::Timestamp;

const FEED: &str = r#"<?xml version="1.0" encoding="UTF-8"?>
<rss version="2.0">
  <channel>
    <title>Example News</title>
    <link>https://example.org</link>
    <description>News</description>
    <language>fr</language>
    <lastBuildDate>Mon, 01 Jan 2024 10:00:00 +0100</lastBuildDate>
    <item>
      <title>Premier</title>
      <link>https://example.org/1</link>
      <description>Un</description>
      <guid>id-1</guid>
      <pubDate>Mon, 01 Jan 2024 09:30:00 +0100</pubDate>
      <category>world</category>
      <category>politics</category>
    </item>
    <item>
      <title>Second</title>
      <link>https://example.org/2</link>
      <description>Deux</description>
      <guid>id-2</guid>
      <pubDate>Tue, 02 Jan 2024 08:00:00 GMT</pubDate>
    </item>
  </channel>
</rss>"#;

fn ts(year: i32, month: u32, day: u32, hour: u32, minute: u32) -> Timestamp {
    Timestamp { year, month, day, hour, minute, second: 0, nanosecond: 0 }
}

fn feed_item(guid: Option<&str>, pub_date: Option<&str>) -> FeedItem {
    FeedItem {
        title: Some("t".to_string()),
        link: Some("https://example.org/x".to_string()),
        description: Some("d".to_string()),
        guid: guid.map(|s| s.to_string()),
        pub_date: pub_date.map(|s| s.to_string()),
        categories: vec!["a".to_string(), "b \"q\"".to_string()],
    }
}

#[test]
fn rss_feed_gives_channel_and_items() {
    let config = Config::Rss(rss::Config { url: "https://example.org/feed".to_string() });
    let data = fetch(&config, FEED).unwrap();
    assert_eq!(data.channel.title, "Example News");
    assert_eq!(data.channel.link, "https://example.org/feed");
    assert_eq!(data.channel.language, "fr");
    assert_eq!(data.channel.last_build_date, Some(ts(2024, 1, 1, 10, 0)));
    assert_eq!(data.items.len(), 2);
    assert_eq!(data.items[0].guid, "id-1");
    assert_eq!(data.items[0].title, "Premier");
    assert_eq!(data.items[0].link, "https://example.org/1");
    assert_eq!(data.items[0].pub_date, ts(2024, 1, 1, 9, 30));
    assert_eq!(data.items[0].tags.as_deref(), Some("[\"world\",\"politics\"]"));
    assert_eq!(data.items[1].pub_date, ts(2024, 1, 2, 8, 0));
    assert_eq!(data.items[1].tags.as_deref(), Some("[]"));
}

#[test]
fn unreadable_feed_is_refused() {
    let config = rss::Config { url: "u".to_string() };
    assert!(matches!(rss::fetch(&config, "not xml at all <"), Err(CollectError::InvalidFeed)));
}

#[test]
fn feed_without_language_is_refused() {
    let feed = Feed { title: "t".to_string(), language: None, last_build_date: None, items: vec![] };
    match data_from_feed("u", feed) {
        Err(CollectError::MissingData(d)) => assert_eq!(d, "channel language"),
        _ => panic!("language is required"),
    }
}

#[test]
fn unparsable_build_date_is_dropped() {
    let feed = Feed {
        title: "t".to_string(),
        language: Some("en".to_string()),
        last_build_date: Some("yesterday".to_string()),
        items: vec![],
    };
    let data = data_from_feed("u", feed).unwrap();
    assert_eq!(data.channel.last_build_date, None);
    assert!(data.items.is_empty());
}

#[test]
fn item_fields_are_required() {
    match item_from_feed(feed_item(None, Some("Mon, 01 Jan 2024 09:30:00 +0000"))) {
        Err(CollectError::MissingData(d)) => assert_eq!(d, "item guid"),
        _ => panic!("guid is required"),
    }
    match item_from_feed(feed_item(Some("g"), None)) {
        Err(CollectError::MissingData(d)) => assert_eq!(d, "item pub_date"),
        _ => panic!("pub_date is required"),
    }
    assert!(matches!(item_from_feed(feed_item(Some("g"), Some("not a date"))), Err(CollectError::InvalidDate)));
    let item = item_from_feed(feed_item(Some("g"), Some("Mon, 01 Jan 2024 09:30:00 +0000"))).unwrap();
    assert_eq!(item.tags.as_deref(), Some("[\"a\",\"b \\\"q\\\"\"]"));
}

#[test]
fn first_bad_item_fails_the_feed() {
    let feed = Feed {
        title: "t".to_string(),
        language: Some("en".to_string()),
        last_build_date: None,
        items: vec![feed_item(Some("g"), Some("bad")), feed_item(None, None)],
    };
    assert!(matches!(data_from_feed("u", feed), Err(CollectError::InvalidDate)));
}

#[test]
fn full_channel_requires_more() {
    let ch = rss::fetch_channel("https://example.org/feed", FEED).unwrap();
    assert_eq!(ch.title(), "Example News");
    assert_eq!(ch.link(), "https://example.org/feed");
    assert_eq!(ch.language(), "fr");
    assert_eq!(ch.last_build_date(), ts(2024, 1, 1, 10, 0));
    assert_eq!(ch.items().len(), 2);
    assert_eq!(ch.items()[1].description(), "Deux");
    assert_eq!(ch.items()[0].guid(), "id-1");
    assert_eq!(ch.items()[0].title(), "Premier");
    assert_eq!(ch.items()[0].link(), "https://example.org/1");
    assert_eq!(ch.items()[0].pub_date(), ts(2024, 1, 1, 9, 30));
    let feed = Feed { title: "t".to_string(), language: Some("en".to_string()), last_build_date: None, items: vec![] };
    match channel_from_feed("u", feed) {
        Err(CollectError::MissingData(d)) => assert_eq!(d, "channel last_build_date"),
        _ => panic!("the build date is required"),
    }
    let mut fi = feed_item(Some("g"), Some("Mon, 01 Jan 2024 09:30:00 +0000"));
    fi.description = None;
    let feed = Feed {
        title: "t".to_string(),
        language: Some("en".to_string()),
        last_build_date: Some("Mon, 01 Jan 2024 09:30:00 +0000".to_string()),
        items: vec![fi],
    };
    match channel_from_feed("u", feed) {
        Err(CollectError::MissingData(d)) => assert_eq!(d, "item description"),
        _ => panic!("the description is required"),
    }
}

const PAGE: &str = r#"<html><body>
<div class="news"><h2> First story </h2><a class="more" href="/story/1">more</a><span class="date">2024-01-05 10:20</span><a class="id" href="id-a">x</a></div>
<div class="news"><h2>Second</h2><a class="more" href="https://other.org/2">more</a><span class="date"> 2024-02-06 11:00 </span><a class="id" href="id-b">x</a></div>
</body></html>"#;

fn html_config() -> HtmlConfig {
    HtmlConfig {
        url: "https://example.org/news/".to_string(),
        name: "Example".to_string(),
        language: "de".to_string(),
        items: "div.news".to_string(),
        title: TextExtractor { sel: "h2".to_string(), get: Getter::Text },
        guid: TextExtractor { sel: "a.id".to_string(), get: Getter::Href },
        link: LinkExtractor { sel: "a.more".to_string() },
        pub_date: DateExtractor { sel: "span.date".to_string(), format: "%Y-%m-%d %H:%M".to_string() },
    }
}

#[test]
fn html_page_gives_items() {
    let data = fetch(&Config::Html(html_config()), PAGE).unwrap();
    assert_eq!(data.channel.title, "Example");
    assert_eq!(data.channel.link, "https://example.org/news/");
    assert_eq!(data.channel.language, "de");
    assert_eq!(data.channel.last_build_date, None);
    assert_eq!(data.items.len(), 2);
    assert_eq!(data.items[0].title, "First story");
    assert_eq!(data.items[0].guid, "id-a");
    assert_eq!(data.items[0].link, "https://example.org/story/1");
    assert_eq!(data.items[0].pub_date, ts(2024, 1, 5, 10, 20));
    assert_eq!(data.items[0].tags, None);
    assert_eq!(data.items[1].link, "https://other.org/2");
    assert_eq!(data.items[1].pub_date, ts(2024, 2, 6, 11, 0));
}

#[test]
fn html_page_missing_element_is_unscrapable() {
    let mut config = html_config();
    config.title.sel = "h3".to_string();
    assert!(matches!(fetch(&Config::Html(config), PAGE), Err(CollectError::Unscrapable)));
}

#[test]
fn invalid_selector_is_unscrapable() {
    let mut config = html_config();
    config.items = "div[".to_string();
    assert!(matches!(fetch(&Config::Html(config), PAGE), Err(CollectError::Unscrapable)));
}

#[test]
fn extractors() {
    let el = Element { text: Some("  Title \n".to_string()), href: Some("/a/b".to_string()) };
    assert_eq!(TextExtractor { sel: "x".to_string(), get: Getter::Text }.extract(&el), "Title");
    assert_eq!(TextExtractor { sel: "x".to_string(), get: Getter::Href }.extract(&el), "/a/b");
    let link = LinkExtractor { sel: "x".to_string() };
    assert_eq!(link.extract(&el, "https://example.org/news/"), Some("https://example.org/a/b".to_string()));
    assert_eq!(link.extract(&el, "not a url"), None);
    let abs = Element { text: None, href: Some("http-not-really".to_string()) };
    assert_eq!(link.extract(&abs, "not a url"), Some("http-not-really".to_string()));
    let date = DateExtractor { sel: "x".to_string(), format: "%d.%m.%Y %H:%M".to_string() };
    let d = Element { text: Some(" 05.01.2024 10:20 ".to_string()), href: None };
    assert_eq!(date.extract(&d), Some(ts(2024, 1, 5, 10, 20)));
    let bad = Element { text: Some("tomorrow".to_string()), href: None };
    assert_eq!(date.extract(&bad), None);
    assert!(begins_with_http("https://x"));
    assert!(!begins_with_http("htt"));
    assert!(!begins_with_http("/http"));
}

fn item(guid: &str) -> Item {
    Item { guid: guid.to_string(), title: "t".to_string(), link: "l".to_string(), pub_date: ts(2024, 1, 1, 0, 0), tags: None }
}

#[test]
fn only_new_items_are_kept() {
    let items = vec![item("a"), item("b"), item("c"), item("b")];
    let new = select_new_items(items, &vec!["b".to_string(), "x".to_string()]);
    let guids: Vec<&str> = new.iter().map(|i| i.guid.as_str()).collect();
    assert_eq!(guids, vec!["a", "c"]);
    assert!(select_new_items(vec![item("a")], &vec!["a".to_string()]).is_empty());
}

#[test]
fn items_without_content_are_skipped() {
    let stored = with_contents(5, vec![item("a"), item("b"), item("c")], vec![Some("A".to_string()), None, Some("C".to_string())]);
    assert_eq!(stored.len(), 2);
    assert_eq!((stored[0].channel_id, stored[0].item.guid.as_str(), stored[0].content.as_str()), (5, "a", "A"));
    assert_eq!((stored[1].item.guid.as_str(), stored[1].content.as_str()), ("c", "C"));
}

#[test]
fn article_links_must_be_urls() {
    assert_eq!(check_link("https://example.org/a"), Ok(()));
    assert_eq!(check_link("not a url"), Err(ContentError::InvalidUrl));
}

#[test]
fn article_body_is_extracted() {
    let body = "This is a long article paragraph with plenty of words in it, written so that the readability algorithm keeps it as content. ".repeat(10);
    let html = format!("<html><head><title>T</title></head><body><div><p>{}</p><p>{}</p></div></body></html>", body, body);
    let text = extract_content("https://example.org/a", &html).unwrap();
    assert!(text.contains("long article paragraph"));
}

#[test]
fn blank_article_is_refused() {
    let html = "<html><body><div>   </div></body></html>";
    assert_eq!(extract_content("https://example.org/a", html), Err(ContentError::Empty));
}

#[test]
fn blank_bodies_are_refused() {
    assert_eq!(non_blank(" \n ".to_string()), Err(ContentError::Empty));
    assert_eq!(non_blank("".to_string()), Err(ContentError::Empty));
    assert_eq!(non_blank(" body ".to_string()), Ok(" body ".to_string()));
}

#[test]
fn item_elements_make_an_item() {
    let config = html_config();
    let g = Some(Element { text: None, href: Some("id-9".to_string()) });
    let t = Some(Element { text: Some(" T ".to_string()), href: None });
    let l = Some(Element { text: None, href: Some("/x".to_string()) });
    let d = Some(Element { text: Some("2024-03-04 05:06".to_string()), href: None });
    let item = item_from_elements(&config, &g, &t, &l, &d).unwrap();
    assert_eq!((item.guid.as_str(), item.title.as_str(), item.link.as_str()), ("id-9", "T", "https://example.org/x"));
    assert_eq!(item.pub_date, ts(2024, 3, 4, 5, 6));
    assert!(item_from_elements(&config, &None, &t, &l, &d).is_none());
    let no_text = Some(Element { text: None, href: None });
    assert!(item_from_elements(&config, &g, &no_text, &l, &d).is_none());
}

#[test]
fn invalid_field_selector_with_no_items_gives_no_items() {
    let mut config = html_config();
    config.items = "section.none".to_string();
    config.title.sel = "h2[".to_string();
    let data = fetch(&Config::Html(config), PAGE).unwrap();
    assert!(data.items.is_empty());
    assert_eq!(data.channel.title, "Example");
}

#[test]
fn invalid_field_selector_with_items_is_unscrapable() {
    let mut config = html_config();
    config.pub_date.sel = "span[".to_string();
    assert!(matches!(fetch(&Config::Html(config), PAGE), Err(CollectError::Unscrapable)));
}

#[test]
fn categories_are_written_with_json_escapes() {
    let mut fi = feed_item(Some("g"), Some("Mon, 01 Jan 2024 09:30:00 +0000"));
    fi.categories = vec!["a\tb\\c".to_string(), "\u{1}\u{1f}\n".to_string(), "é/x".to_string()];
    let item = item_from_feed(fi).unwrap();
    assert_eq!(item.tags.as_deref(), Some("[\"a\\tb\\\\c\",\"\\u0001\\u001f\\n\",\"é/x\"]"));
}

#[test]
fn feed_with_complete_items_gives_one_item_each() {
    let feed = Feed {
        title: "t".to_string(),
        language: Some("en".to_string()),
        last_build_date: None,
        items: vec![
            feed_item(Some("g1"), Some("Mon, 01 Jan 2024 09:30:00 +0000")),
            feed_item(Some("g2"), Some("Tue, 02 Jan 2024 09:30:00 +0000")),
        ],
    };
    let data = data_from_feed("u", feed).unwrap();
    let guids: Vec<&str> = data.items.iter().map(|i| i.guid.as_str()).collect();
    assert_eq!(guids, vec!["g1", "g2"]);
    assert_eq!(data.channel.last_build_date, None);
}
