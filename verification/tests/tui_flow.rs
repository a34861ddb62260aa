use rss_reader::model::{AppState, EntryView, FeedState};
use rss_reader::tui::{
    after_first_refresh, after_open, after_refresh, collect_feeds, confirm_delete_selected_feed,
    exit_input_mode, feed_label, filtered_entries, finish_add, handle_add_feed, handle_key, insert_feed,
    mark_entry_read, move_selection, normalize_selection, normalize_state, request_delete_selected_feed,
    select_feed, AddPlan, Focus, InputMode, Key, KeyAction, ModalMode, SortMode, TuiState,
};
use rss_reader::view::screen_text;

fn entry(key: &str, title: &str, published: Option<&str>, is_read: bool) -> EntryView {
    EntryView {
        key: key.to_string(),
        title: title.to_string(),
        link: format!("https://example.com/{key}"),
        content: String::new(),
        published: published.map(|p| p.to_string()),
        is_read,
    }
}

fn feed(url: &str, title: Option<&str>, entries: Vec<EntryView>) -> (String, FeedState) {
    let mut fs = FeedState::fresh(url);
    fs.title = title.map(|t| t.to_string());
    fs.entries = entries;
    (url.to_string(), fs)
}

fn sample_app() -> AppState {
    AppState {
        version: 1,
        feeds: vec![
            feed("https://z.example", Some("zeta"), vec![]),
            feed(
                "https://a.example",
                Some("Alpha"),
                vec![
                    entry("e1", "Rust news", Some("2024-01-01"), false),
                    entry("e2", "Other", Some("2024-03-01"), true),
                    entry("e3", "More rust", Some("2024-02-01"), false),
                ],
            ),
            feed("https://m.example", None, vec![]),
        ],
    }
}

#[test]
fn sort_mode_cycles_with_labels() {
    let mut m = SortMode::NewFirst;
    let mut labels = Vec::new();
    for _ in 0..4 {
        labels.push(m.label());
        m = m.next();
    }
    assert!(m == SortMode::NewFirst);
    assert_eq!(labels, vec!["Sort: new→old", "Sort: old→new", "Filter: unread", "Filter: read"]);
}

#[test]
fn feeds_are_listed_by_lowercase_name() {
    let app = sample_app();
    assert_eq!(collect_feeds(&app), vec![1, 2, 0]);
    assert_eq!(feed_label(&app.feeds[2].1), "https://m.example");
}

#[test]
fn entries_newest_first_and_filtered() {
    let app = sample_app();
    let feeds = collect_feeds(&app);
    let mut state = TuiState::new();
    assert_eq!(filtered_entries(&app, &feeds, 0, &state), vec![1, 2, 0]);
    state.sort_mode = SortMode::OldFirst;
    assert_eq!(filtered_entries(&app, &feeds, 0, &state), vec![0, 2, 1]);
    state.sort_mode = SortMode::UnreadOnly;
    assert_eq!(filtered_entries(&app, &feeds, 0, &state), vec![2, 0]);
    state.sort_mode = SortMode::ReadOnly;
    assert_eq!(filtered_entries(&app, &feeds, 0, &state), vec![1]);
    state.sort_mode = SortMode::NewFirst;
    state.search_query = "  RUST ".to_string();
    assert_eq!(filtered_entries(&app, &feeds, 0, &state), vec![2, 0]);
    assert!(filtered_entries(&app, &feeds, 9, &state).is_empty());
}

#[test]
fn selections_stay_in_range() {
    let mut i = 7;
    assert_eq!(normalize_selection(&mut i, 3), Some(2));
    assert_eq!(i, 2);
    assert_eq!(normalize_selection(&mut i, 0), None);
    assert_eq!(i, 0);
    let mut j = 0;
    move_selection(&mut j, 3, -1);
    assert_eq!(j, 0);
    move_selection(&mut j, 3, 5);
    assert_eq!(j, 2);
    move_selection(&mut j, 0, 1);
    assert_eq!(j, 0);
}

#[test]
fn normalize_state_clamps_both_selections() {
    let app = sample_app();
    let mut state = TuiState::new();
    state.feed_index = 10;
    state.entry_index = 10;
    normalize_state(&app, &mut state);
    assert_eq!(state.feed_index, 2);
    assert_eq!(state.entry_index, 0);
    state.feed_index = 0;
    state.entry_index = 10;
    normalize_state(&app, &mut state);
    assert_eq!(state.entry_index, 2);
}

#[test]
fn moving_and_entering_opens_link_and_marks_read() {
    let mut app = sample_app();
    let mut state = TuiState::new();
    assert!(matches!(handle_key(&mut app, &mut state, Key::Down), KeyAction::Stay));
    assert_eq!(state.feed_index, 1);
    assert!(matches!(handle_key(&mut app, &mut state, Key::Char('k')), KeyAction::Stay));
    assert_eq!(state.feed_index, 0);
    assert!(matches!(handle_key(&mut app, &mut state, Key::Enter), KeyAction::Stay));
    assert!(state.focus == Focus::Entries);
    handle_key(&mut app, &mut state, Key::Char('j'));
    handle_key(&mut app, &mut state, Key::Char('j'));
    assert_eq!(state.entry_index, 2);
    match handle_key(&mut app, &mut state, Key::Right) {
        KeyAction::Open(link) => assert_eq!(link, "https://example.com/e1"),
        _ => panic!("expected a link to open"),
    }
    assert!(app.feeds[1].1.entries[0].is_read);
    after_open(&mut state, Ok(()));
    assert_eq!(state.notice.as_deref(), Some("Opened in browser"));
    after_open(&mut state, Err("no browser".to_string()));
    assert_eq!(state.notice.as_deref(), Some("Open failed: no browser"));
    handle_key(&mut app, &mut state, Key::Left);
    assert!(state.focus == Focus::Feeds);
    assert_eq!(state.entry_index, 0);
}

#[test]
fn esc_quits_and_tab_switches_panes() {
    let mut app = sample_app();
    let mut state = TuiState::new();
    assert!(matches!(handle_key(&mut app, &mut state, Key::Tab), KeyAction::Stay));
    assert!(state.focus == Focus::Entries);
    assert_eq!(state.entry_index, 0);
    handle_key(&mut app, &mut state, Key::Down);
    assert_eq!(state.entry_index, 1);
    handle_key(&mut app, &mut state, Key::Tab);
    assert!(state.focus == Focus::Feeds);
    assert_eq!(state.entry_index, 0);
    assert!(matches!(handle_key(&mut app, &mut state, Key::Esc), KeyAction::Quit));
    handle_key(&mut app, &mut state, Key::Char('/'));
    assert!(matches!(handle_key(&mut app, &mut state, Key::Esc), KeyAction::Stay));
    assert!(state.input_mode.is_none());
}

#[test]
fn entering_without_entries_gives_notice() {
    let mut app = sample_app();
    let mut state = TuiState::new();
    state.feed_index = 2;
    handle_key(&mut app, &mut state, Key::Enter);
    handle_key(&mut app, &mut state, Key::Enter);
    assert_eq!(state.notice.as_deref(), Some("No entry selected"));
}

#[test]
fn q_quits_and_r_refreshes() {
    let mut app = sample_app();
    let mut state = TuiState::new();
    assert!(matches!(handle_key(&mut app, &mut state, Key::Char('r')), KeyAction::Refresh));
    after_refresh(&mut state, Ok(()));
    assert_eq!(state.notice.as_deref(), Some("Refresh complete"));
    after_refresh(&mut state, Err("offline".to_string()));
    assert_eq!(state.notice.as_deref(), Some("Refresh failed: offline"));
    handle_key(&mut app, &mut state, Key::Char('/'));
    assert!(matches!(handle_key(&mut app, &mut state, Key::Char('q')), KeyAction::Quit));
}

#[test]
fn search_typing_updates_query_and_escape_clears_it() {
    let mut app = sample_app();
    let mut state = TuiState::new();
    handle_key(&mut app, &mut state, Key::Char('/'));
    assert!(state.input_mode == Some(InputMode::Search));
    assert!(state.modal_mode == Some(ModalMode::Input));
    handle_key(&mut app, &mut state, Key::Char('r'));
    handle_key(&mut app, &mut state, Key::Char('u'));
    handle_key(&mut app, &mut state, Key::Char('x'));
    handle_key(&mut app, &mut state, Key::Backspace);
    assert_eq!(state.search_query, "ru");
    handle_key(&mut app, &mut state, Key::Enter);
    assert!(state.input_mode.is_none());
    assert!(state.modal_mode.is_none());
    assert_eq!(state.search_query, "ru");
    handle_key(&mut app, &mut state, Key::Char('/'));
    handle_key(&mut app, &mut state, Key::Char('z'));
    handle_key(&mut app, &mut state, Key::Esc);
    assert_eq!(state.search_query, "");
    assert_eq!(state.input_buffer, "");
}

#[test]
fn exit_input_mode_keeps_query_unless_asked() {
    let mut state = TuiState::new();
    state.input_mode = Some(InputMode::Search);
    state.modal_mode = Some(ModalMode::Input);
    state.search_query = "q".to_string();
    state.input_buffer = "q".to_string();
    state.notice = Some("n".to_string());
    exit_input_mode(&mut state, false);
    assert_eq!(state.search_query, "q");
    assert!(state.notice.is_none());
    assert!(state.input_mode.is_none() && state.modal_mode.is_none());
}

#[test]
fn delete_asks_then_removes_feed() {
    let mut app = sample_app();
    let mut state = TuiState::new();
    state.feed_index = 1;
    handle_key(&mut app, &mut state, Key::Char('d'));
    assert_eq!(state.pending_delete.as_deref(), Some("https://m.example"));
    assert!(state.modal_mode == Some(ModalMode::ConfirmDelete));
    handle_key(&mut app, &mut state, Key::Char('x'));
    assert!(state.modal_mode == Some(ModalMode::ConfirmDelete));
    handle_key(&mut app, &mut state, Key::Char('Y'));
    assert_eq!(app.feeds.len(), 2);
    assert_eq!(state.notice.as_deref(), Some("Feed deleted"));
    assert_eq!(state.feed_index, 0);
    assert!(state.modal_mode.is_none());
}

#[test]
fn delete_cancel_and_missing_feed() {
    let mut app = sample_app();
    let mut state = TuiState::new();
    request_delete_selected_feed(&app, &mut state);
    handle_key(&mut app, &mut state, Key::Esc);
    assert!(state.pending_delete.is_none());
    assert_eq!(app.feeds.len(), 3);
    state.pending_delete = Some("https://gone.example".to_string());
    state.modal_mode = Some(ModalMode::ConfirmDelete);
    confirm_delete_selected_feed(&mut app, &mut state);
    assert_eq!(state.notice.as_deref(), Some("Feed not found"));
    let mut empty = AppState::default();
    let mut st = TuiState::new();
    request_delete_selected_feed(&empty, &mut st);
    assert_eq!(st.notice.as_deref(), Some("No feed selected"));
    st.pending_delete = None;
    confirm_delete_selected_feed(&mut empty, &mut st);
    assert!(st.modal_mode.is_none());
}

#[test]
fn deleting_last_feed_goes_back_to_feed_pane() {
    let mut app = AppState { version: 1, feeds: vec![feed("https://only", None, vec![])] };
    let mut state = TuiState::new();
    state.focus = Focus::Entries;
    state.pending_delete = Some("https://only".to_string());
    confirm_delete_selected_feed(&mut app, &mut state);
    assert!(app.feeds.is_empty());
    assert!(state.focus == Focus::Feeds);
}

#[test]
fn adding_a_feed_url() {
    let mut app = sample_app();
    let mut state = TuiState::new();
    handle_key(&mut app, &mut state, Key::Char('a'));
    assert!(state.input_mode == Some(InputMode::AddFeed));
    for c in " https://b.example ".chars() {
        handle_key(&mut app, &mut state, Key::Char(c));
    }
    let raw = match handle_key(&mut app, &mut state, Key::Enter) {
        KeyAction::AddFeed(raw) => raw,
        _ => panic!("expected an addition"),
    };
    assert_eq!(raw, "https://b.example");
    let plan = handle_add_feed(&mut app, &mut state, &raw, None).expect("added");
    assert_eq!(app.feeds.len(), 4);
    finish_add(&app, &mut state, Ok(()), &plan);
    assert_eq!(state.notice.as_deref(), Some("Feed added"));
    assert_eq!(state.feed_index, 1);
    assert!(state.input_mode.is_none() && state.input_buffer.is_empty());
    assert!(handle_add_feed(&mut app, &mut state, "https://b.example", None).is_none());
    assert_eq!(state.notice.as_deref(), Some("Feed already exists"));
    assert!(handle_add_feed(&mut app, &mut state, "bad url", None).is_none());
    assert_eq!(state.notice.as_deref(), Some("invalid feed URL: bad url"));
}

#[test]
fn empty_addition_gives_notice() {
    let mut app = sample_app();
    let mut state = TuiState::new();
    handle_key(&mut app, &mut state, Key::Char('a'));
    handle_key(&mut app, &mut state, Key::Char(' '));
    assert!(matches!(handle_key(&mut app, &mut state, Key::Enter), KeyAction::Stay));
    assert_eq!(state.notice.as_deref(), Some("Feed URL or file path is empty"));
}

#[test]
fn importing_a_feeds_file() {
    let mut app = sample_app();
    let mut state = TuiState::new();
    let contents = "# list\nhttps://a.example\nhttps://c.example\nhttps://d.example\n";
    let plan = handle_add_feed(&mut app, &mut state, "list.txt", Some(Ok(contents.to_string()))).expect("imported");
    match &plan {
        AddPlan::Import { first, count } => {
            assert_eq!(first, "https://c.example");
            assert_eq!(*count, 2);
        }
        _ => panic!("expected an import"),
    }
    for url in ["https://a.example", "https://c.example", "https://d.example"] {
        assert!(app.feeds.iter().any(|(k, _)| k == url));
    }
    finish_add(&app, &mut state, Err("x".to_string()), &plan);
    assert_eq!(state.notice.as_deref(), Some("Refresh failed: x"));
    finish_add(&app, &mut state, Ok(()), &plan);
    assert_eq!(state.notice.as_deref(), Some("Imported 2 feeds"));
    assert!(handle_add_feed(&mut app, &mut state, "list.txt", Some(Ok(contents.to_string()))).is_none());
    assert_eq!(state.notice.as_deref(), Some("Feeds already exist"));
    assert!(handle_add_feed(&mut app, &mut state, "list.txt", Some(Ok("# none\n".to_string()))).is_none());
    assert_eq!(state.notice.as_deref(), Some("No feeds found in file"));
    assert!(handle_add_feed(&mut app, &mut state, "list.txt", Some(Err("denied".to_string()))).is_none());
    assert_eq!(state.notice.as_deref(), Some("failed to read feeds file list.txt: denied"));
}

#[test]
fn insert_select_and_mark_read() {
    let mut app = AppState::default();
    assert!(insert_feed(&mut app, "https://x"));
    assert!(!insert_feed(&mut app, "https://x"));
    assert_eq!(app.feeds.len(), 1);
    app.feeds[0].1.entries.push(entry("k", "t", None, false));
    app.feeds[0].1.entries.push(entry("k", "t2", None, false));
    mark_entry_read(&mut app, "https://x", "k");
    assert!(app.feeds[0].1.entries[0].is_read);
    assert!(!app.feeds[0].1.entries[1].is_read);
    mark_entry_read(&mut app, "https://nope", "k");
    let mut state = TuiState::new();
    state.feed_index = 5;
    select_feed(&mut state, &app, "https://missing");
    assert_eq!(state.feed_index, 5);
    select_feed(&mut state, &app, "https://x");
    assert_eq!(state.feed_index, 0);
}

#[test]
fn first_refresh_reports_only_failures() {
    let mut state = TuiState::new();
    after_first_refresh(&mut state, Ok(()));
    assert!(state.notice.is_none());
    after_first_refresh(&mut state, Err("down".to_string()));
    assert_eq!(state.notice.as_deref(), Some("Refresh failed: down"));
}

#[test]
fn screen_text_shows_lists_and_counts() {
    let app = sample_app();
    let mut state = TuiState::new();
    state.entry_index = 9;
    state.notice = Some("hi".to_string());
    let screen = screen_text(&app, &mut state);
    assert_eq!(state.entry_index, 2);
    assert_eq!(
        screen.header,
        vec!["RSS Reader", "  Feeds: 3", "  Entries: 3/3", "  Sort: new→old", "  Search: (none)"]
    );
    assert_eq!(screen.feed_items, vec!["Alpha (3)", "https://m.example (0)", "zeta (0)"]);
    assert_eq!(screen.entry_items, vec!["✓ Other", "• More rust", "• Rust news"]);
    assert_eq!(screen.feed_selected, Some(0));
    assert_eq!(screen.entry_selected, Some(2));
    assert!(screen.help_line.ends_with("  |  hi"));
    assert!(screen.modal.is_none());
    state.input_mode = Some(InputMode::AddFeed);
    state.modal_mode = Some(ModalMode::Input);
    state.input_buffer = "ab".to_string();
    let screen = screen_text(&app, &mut state);
    let modal = screen.modal.expect("dialog");
    assert_eq!(modal.title, "Add feed");
    assert_eq!(modal.lines, vec!["Feed URL or file path:", "ab", "Enter to add/import, Esc to cancel"]);
    assert_eq!(modal.cursor_column, Some(2));
    assert_eq!(screen.header[4], "  Add feed: ab");
}

#[test]
fn read_and_unread_filters_split_the_listing() {
    let app = sample_app();
    let feeds = collect_feeds(&app);
    let mut state = TuiState::new();
    let mut all = filtered_entries(&app, &feeds, 0, &state);
    state.sort_mode = SortMode::OldFirst;
    let mut old_first = filtered_entries(&app, &feeds, 0, &state);
    state.sort_mode = SortMode::UnreadOnly;
    let unread = filtered_entries(&app, &feeds, 0, &state);
    state.sort_mode = SortMode::ReadOnly;
    let read = filtered_entries(&app, &feeds, 0, &state);
    assert!(unread.iter().all(|p| !read.contains(p)));
    let mut both: Vec<usize> = unread.iter().chain(read.iter()).copied().collect();
    both.sort();
    all.sort();
    old_first.sort();
    assert_eq!(both, all);
    assert_eq!(old_first, all);
}

#[test]
fn ties_keep_their_stored_order() {
    let app = AppState {
        version: 1,
        feeds: vec![
            feed("https://b.example", Some("same"), vec![]),
            feed(
                "https://a.example",
                Some("Same"),
                vec![
                    entry("e1", "One", Some("2024-01-01"), false),
                    entry("e2", "Two", Some("2024-01-01"), false),
                    entry("e3", "Three", None, false),
                ],
            ),
        ],
    };
    let feeds = collect_feeds(&app);
    assert_eq!(feeds, vec![0, 1]);
    let mut state = TuiState::new();
    assert_eq!(filtered_entries(&app, &feeds, 1, &state), vec![0, 1, 2]);
    state.sort_mode = SortMode::OldFirst;
    assert_eq!(filtered_entries(&app, &feeds, 1, &state), vec![2, 0, 1]);
}

#[test]
fn marking_read_twice_is_marking_once() {
    let mut app = sample_app();
    mark_entry_read(&mut app, "https://a.example", "e1");
    let once: Vec<bool> = app.feeds[1].1.entries.iter().map(|e| e.is_read).collect();
    mark_entry_read(&mut app, "https://a.example", "e1");
    let twice: Vec<bool> = app.feeds[1].1.entries.iter().map(|e| e.is_read).collect();
    assert_eq!(once, vec![true, true, false]);
    assert_eq!(once, twice);
}

#[test]
fn selecting_a_feed_uses_its_listing_position() {
    let app = sample_app();
    let mut state = TuiState::new();
    select_feed(&mut state, &app, "https://z.example");
    assert_eq!(state.feed_index, 2);
    select_feed(&mut state, &app, "https://a.example");
    assert_eq!(state.feed_index, 0);
}
