use rss_reader::date_guard::dates_safe;
use rss_reader::feed::{entry_key, entry_link, entry_title, extract_article_html, FeedDocument, FeedEntry};
use rss_reader::model::{AppState, EntryView, FeedState};
use rss_reader::text::{decimal_string, is_whitespace, lines_of, trim};
use rss_reader::update::{apply_feed_update, apply_parsed, ensure_feed_state, record_fetch, remember_entry, RefreshOutcome};

fn entry(id: Option<&str>, title: Option<&str>) -> FeedEntry {
    FeedEntry {
        id: id.map(|s| s.to_string()),
        title: title.map(|s| s.to_string()),
        link: None,
        links: Vec::new(),
        summary: None,
        published: None,
        author: None,
    }
}

fn doc(entries: Vec<FeedEntry>) -> FeedDocument {
    FeedDocument { title: Some("Feed".to_string()), entries }
}

#[test]
fn entry_key_prefers_id_then_links_then_title() {
    let mut e = entry(Some("abc"), Some("T"));
    e.link = Some("https://x/1".to_string());
    assert_eq!(entry_key(&e, 0), "id:abc");
    e.id = None;
    assert_eq!(entry_key(&e, 0), "link:https://x/1");
    e.link = None;
    e.links = vec!["https://x/2".to_string(), "https://x/3".to_string()];
    assert_eq!(entry_key(&e, 0), "link:https://x/2");
    e.links.clear();
    assert_eq!(entry_key(&e, 0), "title:T");
    e.published = Some("2024-01-02T03:04:05+00:00".to_string());
    assert_eq!(entry_key(&e, 0), "title:T|published:2024-01-02T03:04:05+00:00");
}

#[test]
fn entry_key_falls_back_to_summary_author_and_position() {
    let mut e = entry(None, None);
    assert_eq!(entry_key(&e, 7), "fallback:empty:7");
    assert_eq!(entry_key(&e, 1234), "fallback:empty:1234");
    e.summary = Some("sum".to_string());
    assert_eq!(entry_key(&e, 7), "fallback:sum||");
    e.author = Some("me".to_string());
    e.published = Some("p".to_string());
    assert_eq!(entry_key(&e, 7), "fallback:sum|me|p");
}

#[test]
fn entry_title_and_link_defaults() {
    let mut e = entry(None, None);
    assert_eq!(entry_title(&e), "(untitled)");
    assert_eq!(entry_link(&e), "");
    e.links = vec!["https://x/2".to_string()];
    assert_eq!(entry_link(&e), "https://x/2");
    e.link = Some("https://x/1".to_string());
    e.title = Some("Hello".to_string());
    assert_eq!(entry_link(&e), "https://x/1");
    assert_eq!(entry_title(&e), "Hello");
}

#[test]
fn update_adds_unseen_entries_first_and_unread() {
    let mut fs = FeedState::fresh("https://f");
    fs.entries.push(EntryView {
        key: "id:old".to_string(),
        title: "Old".to_string(),
        link: String::new(),
        content: String::new(),
        published: None,
        is_read: true,
    });
    fs.seen_keys.push("id:old".to_string());
    let d = doc(vec![entry(Some("new1"), Some("N1")), entry(Some("old"), Some("Old")), entry(Some("new2"), Some("N2"))]);
    let (added, changed, label) = apply_feed_update(&mut fs, &d, 10, 50);
    assert_eq!(added.len(), 2);
    assert!(changed);
    assert_eq!(label, "Feed");
    let keys: Vec<&str> = fs.entries.iter().map(|e| e.key.as_str()).collect();
    assert_eq!(keys, vec!["id:new1", "id:new2", "id:old"]);
    assert!(!fs.entries[0].is_read && !fs.entries[1].is_read && fs.entries[2].is_read);
    assert_eq!(fs.seen_keys, vec!["id:old".to_string(), "id:new1".to_string(), "id:new2".to_string()]);
    assert_eq!(fs.title.as_deref(), Some("Feed"));
}

#[test]
fn update_twice_adds_entries_once() {
    let mut fs = FeedState::fresh("https://f");
    let d = doc(vec![entry(Some("a"), None), entry(Some("b"), None)]);
    let (first, changed, _) = apply_feed_update(&mut fs, &d, 10, 50);
    assert_eq!(first.len(), 2);
    assert!(changed);
    let (second, changed_again, _) = apply_feed_update(&mut fs, &d, 10, 50);
    assert!(second.is_empty());
    assert!(!changed_again);
    assert_eq!(fs.entries.len(), 2);
}

#[test]
fn update_stops_after_max_items_and_at_least_one() {
    let mut fs = FeedState::fresh("https://f");
    let d = doc(vec![entry(Some("a"), None), entry(Some("b"), None), entry(Some("c"), None)]);
    let (added, _, _) = apply_feed_update(&mut fs, &d, 10, 2);
    assert_eq!(added.len(), 2);
    let mut fs0 = FeedState::fresh("https://f");
    let (added0, _, _) = apply_feed_update(&mut fs0, &d, 10, 0);
    assert_eq!(added0.len(), 1);
}

#[test]
fn update_keeps_seen_keys_within_cap() {
    let mut fs = FeedState::fresh("https://f");
    fs.seen_keys = vec!["k1".to_string(), "k2".to_string(), "k3".to_string()];
    let d = doc(vec![entry(Some("a"), None), entry(Some("b"), None)]);
    let _ = apply_feed_update(&mut fs, &d, 2, 50);
    assert_eq!(fs.seen_keys, vec!["id:a".to_string(), "id:b".to_string()]);
}

#[test]
fn update_label_falls_back_to_feed_url() {
    let mut fs = FeedState::fresh("https://f");
    let d = FeedDocument { title: None, entries: Vec::new() };
    let (added, changed, label) = apply_feed_update(&mut fs, &d, 10, 50);
    assert!(added.is_empty());
    assert!(!changed);
    assert_eq!(label, "https://f");
}

#[test]
fn remember_entry_forgets_oldest_beyond_cap() {
    let mut seen = vec!["a".to_string(), "b".to_string()];
    let mut order = vec!["a".to_string(), "b".to_string()];
    remember_entry("c".to_string(), &mut seen, &mut order, 2);
    assert_eq!(order, vec!["b".to_string(), "c".to_string()]);
    let mut s = seen.clone();
    s.sort();
    assert_eq!(s, vec!["b".to_string(), "c".to_string()]);
    remember_entry("b".to_string(), &mut seen, &mut order, 2);
    assert_eq!(order, vec!["b".to_string(), "c".to_string()]);
}

#[test]
fn ensure_feed_state_adds_and_repairs() {
    let mut app = AppState::default();
    ensure_feed_state(&mut app, "https://f", 2);
    assert_eq!(app.feeds.len(), 1);
    assert_eq!(app.feeds[0].0, "https://f");
    let fs = &mut app.feeds[0].1;
    fs.feed_url = "stale".to_string();
    for k in ["x", "y", "z"] {
        fs.entries.push(EntryView {
            key: k.to_string(),
            title: String::new(),
            link: String::new(),
            content: String::new(),
            published: None,
            is_read: false,
        });
    }
    ensure_feed_state(&mut app, "https://f", 2);
    assert_eq!(app.feeds.len(), 1);
    assert_eq!(app.feeds[0].1.feed_url, "https://f");
    assert_eq!(app.feeds[0].1.seen_keys, vec!["y".to_string(), "z".to_string()]);
}

#[test]
fn apply_parsed_records_errors_and_changes() {
    let mut app = AppState::default();
    let mut outcome = RefreshOutcome::new();
    apply_parsed(&mut app, "https://f", Err("boom".to_string()), 10, 50, &mut outcome);
    assert!(app.feeds.is_empty());
    assert_eq!(outcome.error.as_deref(), Some("boom"));
    assert!(!outcome.changed);
    apply_parsed(&mut app, "https://f", Ok(doc(vec![entry(Some("a"), None)])), 10, 50, &mut outcome);
    assert!(outcome.changed);
    assert_eq!(app.feeds.len(), 1);
    assert_eq!(app.feeds[0].1.entries.len(), 1);
    assert_eq!(outcome.error.as_deref(), Some("boom"));
}

#[test]
fn record_fetch_parses_rss_bytes() {
    let xml = r#"<?xml version="1.0"?><rss version="2.0"><channel><title>Example Feed</title>
<item><title>One</title><link>https://example.com/1</link><guid>g1</guid><description>first</description></item>
<item><title>Two</title><link>https://example.com/2</link></item>
</channel></rss>"#;
    let mut app = AppState::default();
    let mut outcome = RefreshOutcome::new();
    record_fetch(&mut app, "https://example.com/feed", Ok(xml.as_bytes().to_vec()), 10, 50, &mut outcome);
    assert!(outcome.error.is_none());
    assert!(outcome.changed);
    let fs = &app.feeds[0].1;
    assert_eq!(fs.title.as_deref(), Some("Example Feed"));
    assert_eq!(fs.entries.len(), 2);
    assert_eq!(fs.entries[0].title, "One");
    assert_eq!(fs.entries[0].link, "https://example.com/1");
    assert_eq!(fs.entries[0].key, "id:g1");
    assert_eq!(fs.entries[1].key, "link:https://example.com/2");
}

#[test]
fn record_fetch_keeps_fetch_error() {
    let mut app = AppState::default();
    let mut outcome = RefreshOutcome::new();
    record_fetch(&mut app, "https://f", Err("timed out".to_string()), 10, 50, &mut outcome);
    assert!(app.feeds.is_empty());
    assert_eq!(outcome.error.as_deref(), Some("timed out"));
}

#[test]
fn article_html_takes_first_matching_selector() {
    let page = "<html><body><main><p>m</p></main><article><p>a</p></article></body></html>";
    assert_eq!(extract_article_html(page), "<article><p>a</p></article>");
    let page2 = "<html><body><div id=\"content\">c</div></body></html>";
    assert_eq!(extract_article_html(page2), "<div id=\"content\">c</div>");
    let page3 = "<p>plain</p>";
    assert_eq!(extract_article_html(page3), page3);
}

#[test]
fn text_helpers_follow_std() {
    assert_eq!(decimal_string(0), "0");
    assert_eq!(decimal_string(42), "42");
    assert_eq!(trim("  a b \t\n"), "a b");
    assert_eq!(trim("\u{3000}x\u{3000}"), "x");
    assert_eq!(lines_of("a\r\nb\n\nc"), vec!["a".to_string(), "b".to_string(), String::new(), "c".to_string()]);
    assert_eq!(lines_of("a\n"), vec!["a".to_string()]);
    assert_eq!(lines_of("a\r"), vec!["a\r".to_string()]);
    assert!(lines_of("").is_empty());
}

#[test]
fn entry_key_ignores_position_when_entry_has_content() {
    let mut e = entry(None, None);
    e.author = Some("someone".to_string());
    assert_eq!(entry_key(&e, 3), entry_key(&e, 9));
    let bare = entry(None, None);
    assert_ne!(entry_key(&bare, 3), entry_key(&bare, 9));
}

#[test]
fn is_whitespace_agrees_with_std_on_every_char() {
    for c in (0u32..=0x10FFFF).filter_map(char::from_u32) {
        assert_eq!(is_whitespace(c), c.is_whitespace(), "char {:#x}", c as u32);
    }
}

#[test]
fn second_update_with_exactly_max_items_adds_nothing() {
    let mut fs = FeedState::fresh("https://f");
    let d = doc(vec![entry(Some("a"), None), entry(Some("b"), None), entry(Some("c"), None)]);
    let (first, changed, _) = apply_feed_update(&mut fs, &d, 10, 3);
    assert_eq!(first.len(), 3);
    assert!(changed);
    let entries_before = fs.entries.len();
    let seen_before = fs.seen_keys.clone();
    let (second, changed_again, _) = apply_feed_update(&mut fs, &d, 10, 3);
    assert!(second.is_empty());
    assert!(!changed_again);
    assert_eq!(fs.entries.len(), entries_before);
    assert_eq!(fs.seen_keys, seen_before);
}

#[test]
fn seen_keys_are_the_newest_window_of_old_and_new() {
    let mut fs = FeedState::fresh("https://f");
    fs.seen_keys = vec!["k1".to_string(), "k2".to_string(), "id:b".to_string()];
    let d = doc(vec![entry(Some("a"), None), entry(Some("b"), None), entry(Some("c"), None)]);
    let (added, _, _) = apply_feed_update(&mut fs, &d, 3, 50);
    let ids: Vec<&str> = added.iter().map(|e| e.id.as_deref().unwrap_or("")).collect();
    assert_eq!(ids, vec!["a", "c"]);
    assert_eq!(fs.seen_keys, vec!["id:b".to_string(), "id:a".to_string(), "id:c".to_string()]);
}

#[test]
fn ensuring_a_feed_twice_is_ensuring_it_once() {
    let mut app = AppState::default();
    ensure_feed_state(&mut app, "https://f", 2);
    {
        let fs = &mut app.feeds[0].1;
        fs.feed_url = "stale".to_string();
        for k in ["x", "y", "z"] {
            fs.entries.push(EntryView {
                key: k.to_string(),
                title: String::new(),
                link: String::new(),
                content: String::new(),
                published: None,
                is_read: false,
            });
        }
    }
    ensure_feed_state(&mut app, "https://f", 2);
    let once: Vec<(String, String, Vec<String>, usize)> = app
        .feeds
        .iter()
        .map(|(k, f)| (k.clone(), f.feed_url.clone(), f.seen_keys.clone(), f.entries.len()))
        .collect();
    ensure_feed_state(&mut app, "https://f", 2);
    let twice: Vec<(String, String, Vec<String>, usize)> = app
        .feeds
        .iter()
        .map(|(k, f)| (k.clone(), f.feed_url.clone(), f.seen_keys.clone(), f.entries.len()))
        .collect();
    assert_eq!(once, twice);
}

fn rss_with_item(item: &str) -> String {
    format!("<?xml version=\"1.0\" encoding=\"UTF-8\"?><rss version=\"2.0\"><channel><title>Guarded</title>{item}</channel></rss>")
}

#[test]
fn risky_dates_are_refused_not_parsed() {
    for date in ["abcé-x", "abéé-", " abcé-x ", "ab&#233;c-x", "abcé&#45;x"] {
        let xml = rss_with_item(&format!("<item><guid>g</guid><pubDate>{date}</pubDate></item>"));
        assert!(!dates_safe(xml.as_bytes()), "{date}");
        let mut app = AppState::default();
        let mut outcome = RefreshOutcome::new();
        record_fetch(&mut app, "https://f", Ok(xml.into_bytes()), 10, 50, &mut outcome);
        assert!(app.feeds.is_empty());
        assert_eq!(
            outcome.error.as_deref(),
            Some("feed not parsed: it may hold a date text the feed parser cannot read")
        );
    }
}

#[test]
fn ordinary_feeds_are_cleared_and_parsed() {
    let xml = rss_with_item(
        "<item><guid>g1</guid><title>标题 - 副标题 – café-bar</title><link>https://example.com/a-b</link>\
         <pubDate>Mon, 01 Jan 2024 10:00:00 GMT</pubDate><!-- note --></item>",
    );
    assert!(dates_safe(xml.as_bytes()));
    let mut app = AppState::default();
    let mut outcome = RefreshOutcome::new();
    record_fetch(&mut app, "https://f", Ok(xml.into_bytes()), 10, 50, &mut outcome);
    assert!(outcome.error.is_none());
    assert_eq!(app.feeds[0].1.entries.len(), 1);
    assert_eq!(app.feeds[0].1.entries[0].title, "标题 - 副标题 – café-bar");
    assert_eq!(app.feeds[0].1.entries[0].published.as_deref(), Some("2024-01-01T10:00:00+00:00"));
}

#[test]
fn encodings_that_change_ascii_are_refused() {
    let plain = b"<?xml version=\"1.0\" encoding='iso-8859-1'?><rss/>";
    assert!(dates_safe(plain));
    let wide = b"<?xml version=\"1.0\" encoding=\"UTF-16\"?><rss/>";
    assert!(!dates_safe(wide));
    let mut bom = vec![0xFF, 0xFE];
    bom.extend_from_slice(b"<rss/>");
    assert!(!dates_safe(&bom));
    assert!(dates_safe(b"<rss version=\"2.0\"></rss>"));
}

#[test]
fn json_dash_escapes_are_checked() {
    assert!(!dates_safe(b"{\"date_published\":\"ab\\u00e9c-x\"}"));
    assert!(!dates_safe(b"{\"date_published\":\"ab\\u00e9c\\u002dx\"}"));
    assert!(dates_safe(b"{\"date_published\":\"2024-01-02T00:00:00Z\"}"));
}
