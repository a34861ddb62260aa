use rss_reader::config::{Args, FeedResolveError};
use rss_reader::model::{AppState, FeedState};
use rss_reader::store::check_loaded_state;

fn base_args() -> Args {
    Args {
        url: Some("https://example.com".to_string()),
        feeds: Vec::new(),
        feeds_file: None,
        timeout_secs: 20,
        user_agent: "rss-reader/0.1".to_string(),
        max_items: 50,
        seen_cap: 2000,
    }
}

#[test]
fn resolve_feeds_file_ignores_comments_and_blank_lines() {
    let contents = "\n# comment\n https://example.com/feed \n\nhttps://example.com/other\n   # trailing comment\n";
    let mut args = base_args();
    args.feeds_file = Some("feeds.txt".to_string());
    let feeds = args
        .resolve_feeds(Ok(contents.to_string()))
        .unwrap_or_else(|e| panic!("resolve feeds: {}", e.message()));

    assert_eq!(
        feeds,
        vec![
            "https://example.com/feed".to_string(),
            "https://example.com/other".to_string()
        ]
    );
}

#[test]
fn resolve_feeds_file_reports_invalid_url_line_number() {
    let contents = "https://example.com/feed\n\nnot a url\n";
    let mut args = base_args();
    args.feeds_file = Some("feeds_invalid.txt".to_string());
    let err = match args.resolve_feeds(Ok(contents.to_string())) {
        Ok(feeds) => panic!("invalid URL should error, got {:?}", feeds),
        Err(err) => err,
    };

    let message = err.message();
    match &err {
        FeedResolveError::InvalidUrl { line, value } => {
            assert_eq!(*line, Some(3));
            assert_eq!(value, "not a url");
            assert!(message.contains("line 3"));
        }
        _ => panic!("unexpected error: {}", message),
    }
}

#[test]
fn load_state_returns_default_on_version_mismatch() {
    let state = AppState {
        version: 2,
        feeds: Vec::new(),
    };
    let loaded = match check_loaded_state(state) {
        Ok(_) => panic!("a state of another version is refused"),
        Err(found) => {
            assert_eq!(found, 2);
            AppState::default()
        }
    };
    assert_eq!(loaded.version, AppState::default().version);
    assert!(loaded.feeds.is_empty());
}

#[test]
fn loaded_state_keeps_first_feed_per_key() {
    let state = AppState {
        version: 1,
        feeds: vec![
            ("a".to_string(), FeedState::fresh("a")),
            ("b".to_string(), FeedState::fresh("b")),
            ("a".to_string(), FeedState::fresh("other")),
        ],
    };
    let kept = check_loaded_state(state).ok().expect("current version is kept");
    assert_eq!(kept.feeds.len(), 2);
    assert_eq!(kept.feeds[0].0, "a");
    assert_eq!(kept.feeds[0].1.feed_url, "a");
    assert_eq!(kept.feeds[1].0, "b");
}

#[test]
fn resolve_feeds_unreadable_file_is_io_error() {
    let mut args = base_args();
    args.feeds_file = Some("missing.txt".to_string());
    let err = args.resolve_feeds(Err("No such file or directory".to_string())).err().expect("error");
    match &err {
        FeedResolveError::Io { path, source } => {
            assert_eq!(path, "missing.txt");
            assert_eq!(source, "No such file or directory");
        }
        _ => panic!("unexpected error: {}", err.message()),
    }
    assert_eq!(err.message(), "failed to read feeds file missing.txt: No such file or directory");
}

#[test]
fn resolve_feeds_uses_bare_url_without_flags() {
    let args = base_args();
    let feeds = args.resolve_feeds(Ok(String::new())).ok().expect("feeds");
    assert_eq!(feeds, vec!["https://example.com".to_string()]);
}

#[test]
fn resolve_feeds_uses_defaults_without_any_feed() {
    let mut args = base_args();
    args.url = None;
    let feeds = args.resolve_feeds(Ok(String::new())).ok().expect("feeds");
    assert_eq!(
        feeds,
        vec![
            "https://hnrss.org/frontpage".to_string(),
            "https://tech.meituan.com/feed/".to_string()
        ]
    );
}

#[test]
fn resolve_feeds_keeps_each_feed_once_in_first_seen_order() {
    let mut args = base_args();
    args.feeds = vec![
        "https://a.example/rss".to_string(),
        "https://b.example/rss".to_string(),
        "https://a.example/rss".to_string(),
    ];
    args.feeds_file = Some("f.txt".to_string());
    let contents = "https://b.example/rss\nhttps://c.example/rss\r\n";
    let feeds = args.resolve_feeds(Ok(contents.to_string())).ok().expect("feeds");
    assert_eq!(
        feeds,
        vec![
            "https://a.example/rss".to_string(),
            "https://b.example/rss".to_string(),
            "https://c.example/rss".to_string()
        ]
    );
}

#[test]
fn resolve_feeds_invalid_flag_url_has_no_line() {
    let mut args = base_args();
    args.feeds = vec!["nope".to_string()];
    let err = args.resolve_feeds(Ok(String::new())).err().expect("error");
    match &err {
        FeedResolveError::InvalidUrl { value, line } => {
            assert_eq!(value, "nope");
            assert_eq!(*line, None);
        }
        _ => panic!("unexpected error: {}", err.message()),
    }
    assert_eq!(err.message(), "invalid feed URL: nope");
}

#[test]
fn resolve_feeds_empty_file_gives_no_feeds() {
    let mut args = base_args();
    args.feeds_file = Some("empty.txt".to_string());
    let err = args.resolve_feeds(Ok("# nothing\n\n".to_string())).err().expect("error");
    assert!(matches!(err, FeedResolveError::NoFeeds));
    assert_eq!(err.message(), "no feeds provided");
}

#[test]
fn effective_seen_cap_is_at_least_one() {
    let mut args = base_args();
    args.seen_cap = 0;
    assert_eq!(args.effective_seen_cap(), 1);
    args.seen_cap = 7;
    assert_eq!(args.effective_seen_cap(), 7);
}

#[test]
fn invalid_url_at_line_zero_has_no_line_in_message() {
    let err = FeedResolveError::InvalidUrl { value: "x".to_string(), line: Some(0) };
    assert_eq!(err.message(), "invalid feed URL: x");
    let err = FeedResolveError::InvalidUrl { value: "x".to_string(), line: Some(12) };
    assert_eq!(err.message(), "invalid feed URL at line 12: x");
}

#[test]
fn loaded_state_with_distinct_keys_is_kept_as_is() {
    let mut b = FeedState::fresh("b");
    b.title = Some("Bee".to_string());
    b.seen_keys = vec!["k".to_string()];
    let state = AppState {
        version: 1,
        feeds: vec![("a".to_string(), FeedState::fresh("a")), ("b".to_string(), b)],
    };
    let kept = check_loaded_state(state).ok().expect("current version is kept");
    assert_eq!(kept.version, 1);
    assert_eq!(kept.feeds.len(), 2);
    assert_eq!(kept.feeds[0].0, "a");
    assert_eq!(kept.feeds[1].0, "b");
    assert_eq!(kept.feeds[1].1.title.as_deref(), Some("Bee"));
    assert_eq!(kept.feeds[1].1.seen_keys, vec!["k".to_string()]);
}

#[test]
fn feed_flags_are_checked_before_the_file() {
    let mut args = base_args();
    args.feeds = vec!["https://ok.example/feed".to_string(), "bad one".to_string(), "also bad".to_string()];
    args.feeds_file = Some("missing.txt".to_string());
    let err = args.check_feed_flags().err().expect("error");
    assert_eq!(err.message(), "invalid feed URL: bad one");
    let resolved = args.resolve_feeds(Err("No such file or directory".to_string())).err().expect("error");
    assert_eq!(resolved.message(), err.message());
    args.feeds = vec!["https://ok.example/feed".to_string()];
    assert!(args.check_feed_flags().is_ok());
}
