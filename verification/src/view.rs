//! What the screen shows, as text: the header, the two lists with their
//! selections, the help line and the dialog. Laying it out and drawing it
//! is left to the program that drives the interface.

use vstd::prelude::*;
use crate::model::{AppRecord, AppState, EntryRecord, FeedRecord};
use crate::text::{decimal, decimal_string, join2, join3, string_views};
use crate::tui::{
    InputMode, ModalMode, TuiRecord, TuiState, as_ints, collect_feeds, feed_label, feed_label_spec,
    feed_order, filtered_entries, listed_entries, mode_label, normalize_state, normalized_tui,
    visible_entries,
};

verus! {

/// The text of the dialog shown over the panes.
#[derive(Debug)]
pub struct ModalText {
    pub title: String,
    pub lines: Vec<String>,
    /// Where the cursor stands on the second line, in characters, when text is typed.
    pub cursor_column: Option<usize>,
}

/// What the screen shows.
#[derive(Debug)]
pub struct Screen {
    /// The header, segment by segment (the first one is shown in bold).
    pub header: Vec<String>,
    pub feed_items: Vec<String>,
    pub feed_selected: Option<usize>,
    pub entry_items: Vec<String>,
    pub entry_selected: Option<usize>,
    pub help_line: String,
    pub modal: Option<ModalText>,
}

/// The label of the search in the header: the query, or `(none)`.
pub open spec fn search_label(st: TuiRecord) -> Seq<char> {
    if st.search_query.len() == 0 {
        "Search: (none)"@
    } else {
        "Search: "@ + st.search_query
    }
}

/// The label of the input in the header: what is being typed, else the search.
pub open spec fn input_label(st: TuiRecord) -> Seq<char> {
    match st.input_mode {
        Some(InputMode::Search) => "Search: "@ + st.input_buffer,
        Some(InputMode::AddFeed) => "Add feed: "@ + st.input_buffer,
        None => search_label(st),
    }
}

/// The number of entries of the selected feed, shown or not.
pub open spec fn total_entries(app: AppRecord, st: TuiRecord) -> nat {
    listed_entries(app.feeds, feed_order(app.feeds), st.feed_index as int).len()
}

/// The header segments: title, feed count, shown/total entries, sort mode, input.
pub open spec fn header_spec(app: AppRecord, st: TuiRecord) -> Seq<Seq<char>> {
    let order = feed_order(app.feeds);
    let vis = visible_entries(app.feeds, order, st.feed_index as int, st);
    seq![
        "RSS Reader"@,
        "  Feeds: "@ + decimal(order.len()),
        "  Entries: "@ + decimal(vis.len()) + "/"@ + decimal(total_entries(app, st)),
        "  "@ + mode_label(st.sort_mode),
        "  "@ + input_label(st),
    ]
}

/// The line for a feed: its name and its number of entries.
pub open spec fn feed_item_spec(fs: FeedRecord) -> Seq<char> {
    feed_label_spec(fs) + " ("@ + decimal(fs.entries.len()) + ")"@
}

/// The lines of the feed list, in listing order.
pub open spec fn feed_items_spec(feeds: Seq<(Seq<char>, FeedRecord)>) -> Seq<Seq<char>> {
    feed_order(feeds).map_values(|p: int| feed_item_spec(feeds[p].1))
}

/// The line for an entry: a check mark when read, a bullet otherwise, then its title.
pub open spec fn entry_item_spec(e: EntryRecord) -> Seq<char> {
    (if e.is_read { "✓"@ } else { "•"@ }) + " "@ + e.title
}

/// The lines of the entry list: the shown entries of the selected feed.
pub open spec fn entry_items_spec(app: AppRecord, st: TuiRecord) -> Seq<Seq<char>> {
    let order = feed_order(app.feeds);
    let es = listed_entries(app.feeds, order, st.feed_index as int);
    visible_entries(app.feeds, order, st.feed_index as int, st).map_values(|j: int| entry_item_spec(es[j]))
}

/// The help line: the key help, followed by the notice when there is one.
pub open spec fn help_line_spec(st: TuiRecord) -> Seq<char> {
    match st.notice {
        Some(n) => st.help + "  |  "@ + n,
        None => st.help,
    }
}

/// The value of a dialog's text.
pub struct ModalRecord {
    pub title: Seq<char>,
    pub lines: Seq<Seq<char>>,
    pub cursor_column: Option<usize>,
}

/// The dialog: the deletion question, or the prompt for the text being typed.
pub open spec fn modal_spec(st: TuiRecord) -> Option<ModalRecord> {
    match st.modal_mode {
        None => None,
        Some(ModalMode::ConfirmDelete) => Some(ModalRecord {
            title: "Confirm delete"@,
            lines: seq![
                "Delete "@ + (match st.pending_delete { Some(k) => k, None => "selected feed"@ }) + "?"@,
                "Press y to confirm, n or Esc to cancel"@,
            ],
            cursor_column: None,
        }),
        Some(ModalMode::Input) => Some(ModalRecord {
            title: match st.input_mode {
                Some(InputMode::Search) => "Search"@,
                Some(InputMode::AddFeed) => "Add feed"@,
                None => "Input"@,
            },
            lines: seq![
                match st.input_mode {
                    Some(InputMode::Search) => "Search query:"@,
                    Some(InputMode::AddFeed) => "Feed URL or file path:"@,
                    None => ""@,
                },
                st.input_buffer,
                match st.input_mode {
                    Some(InputMode::Search) => "Enter to apply, Esc to cancel"@,
                    Some(InputMode::AddFeed) => "Enter to add/import, Esc to cancel"@,
                    None => ""@,
                },
            ],
            cursor_column: Some(st.input_buffer.len() as usize),
        }),
    }
}

/// The value of the screen's text.
pub struct ScreenRecord {
    pub header: Seq<Seq<char>>,
    pub feed_items: Seq<Seq<char>>,
    pub feed_selected: Option<usize>,
    pub entry_items: Seq<Seq<char>>,
    pub entry_selected: Option<usize>,
    pub help_line: Seq<char>,
    pub modal: Option<ModalRecord>,
}

impl ModalText {
    /// The value of this dialog's text.
    pub open spec fn record(&self) -> ModalRecord {
        ModalRecord { title: self.title@, lines: string_views(self.lines@), cursor_column: self.cursor_column }
    }
}

impl Screen {
    /// The value of this screen's text.
    pub open spec fn record(&self) -> ScreenRecord {
        ScreenRecord {
            header: string_views(self.header@),
            feed_items: string_views(self.feed_items@),
            feed_selected: self.feed_selected,
            entry_items: string_views(self.entry_items@),
            entry_selected: self.entry_selected,
            help_line: self.help_line@,
            modal: match self.modal {
                Some(m) => Some(m.record()),
                None => None,
            },
        }
    }
}

/// What the screen shows for `app` in (normalized) state `st`.
pub open spec fn screen_spec(app: AppRecord, st: TuiRecord) -> ScreenRecord {
    let order = feed_order(app.feeds);
    let vis = visible_entries(app.feeds, order, st.feed_index as int, st);
    ScreenRecord {
        header: header_spec(app, st),
        feed_items: feed_items_spec(app.feeds),
        feed_selected: if order.len() == 0 { None } else { Some(st.feed_index) },
        entry_items: entry_items_spec(app, st),
        entry_selected: if vis.len() == 0 { None } else { Some(st.entry_index) },
        help_line: help_line_spec(st),
        modal: modal_spec(st),
    }
}

/// The text of the dialog for `state`.
fn modal_text(state: &TuiState) -> (r: Option<ModalText>)
    ensures
        match r {
            Some(m) => modal_spec(state@) == Some(m.record()),
            None => modal_spec(state@) is None,
        },
{
    match state.modal_mode {
        None => None,
        Some(ModalMode::ConfirmDelete) => {
            let name = match &state.pending_delete {
                Some(k) => k.clone(),
                None => String::from_str("selected feed"),
            };
            let mut lines: Vec<String> = Vec::new();
            lines.push(join3("Delete ", name.as_str(), "?"));
            lines.push(String::from_str("Press y to confirm, n or Esc to cancel"));
            assert(string_views(lines@) =~= modal_spec(state@).unwrap().lines);
            let m = ModalText { title: String::from_str("Confirm delete"), lines, cursor_column: None };
            Some(m)
        },
        Some(ModalMode::Input) => {
            let title = match state.input_mode {
                Some(InputMode::Search) => "Search",
                Some(InputMode::AddFeed) => "Add feed",
                None => "Input",
            };
            let prompt = match state.input_mode {
                Some(InputMode::Search) => "Search query:",
                Some(InputMode::AddFeed) => "Feed URL or file path:",
                None => "",
            };
            let hint = match state.input_mode {
                Some(InputMode::Search) => "Enter to apply, Esc to cancel",
                Some(InputMode::AddFeed) => "Enter to add/import, Esc to cancel",
                None => "",
            };
            let mut lines: Vec<String> = Vec::new();
            lines.push(String::from_str(prompt));
            lines.push(state.input_buffer.clone());
            lines.push(String::from_str(hint));
            let count = crate::text::chars_of(state.input_buffer.as_str()).len();
            let m = ModalText { title: String::from_str(title), lines, cursor_column: Some(count) };
            assert(string_views(m.lines@) =~= modal_spec(state@).unwrap().lines);
            Some(m)
        },
    }
}

/// The lines of the feed list.
fn feed_items(app: &AppState, order: &Vec<usize>) -> (r: Vec<String>)
    requires
        as_ints(order@) == feed_order(app@.feeds),
    ensures
        string_views(r@) == feed_items_spec(app@.feeds),
{
    proof {
        crate::tui::lemma_feed_order_in_range(app@.feeds);
    }
    let mut r: Vec<String> = Vec::new();
    let mut i: usize = 0;
    while i < order.len()
        invariant
            i <= order.len(),
            as_ints(order@) == feed_order(app@.feeds),
            order.len() == app@.feeds.len(),
            forall|p: int| 0 <= p < app@.feeds.len() ==> 0 <= #[trigger] feed_order(app@.feeds)[p] < app@.feeds.len(),
            string_views(r@) == feed_items_spec(app@.feeds).take(i as int),
        decreases order.len() - i,
    {
        let p = order[i];
        assert(p as int == feed_order(app@.feeds)[i as int]);
        let fs = &app.feeds[p].1;
        let label = feed_label(fs);
        let count = decimal_string(fs.entries.len());
        let mut line = join3(label.as_str(), " (", count.as_str());
        line.append(")");
        let ghost prev = r@;
        r.push(line);
        assert(string_views(r@) == string_views(prev).push(line@));
        assert(fs@.entries.len() == fs.entries.len());
        assert(string_views(r@) =~= feed_items_spec(app@.feeds).take(i + 1));
        i += 1;
    }
    assert(feed_items_spec(app@.feeds).take(order.len() as int) =~= feed_items_spec(app@.feeds));
    r
}

/// The text the screen shows, with the selections first kept inside their
/// lists as drawing requires.
pub fn screen_text(app: &AppState, state: &mut TuiState) -> (r: Screen)
    ensures
        final(state)@ == normalized_tui(app@, old(state)@),
        r.record() == screen_spec(app@, final(state)@),
{
    normalize_state(app, state);
    let order = collect_feeds(app);
    proof {
        crate::tui::lemma_feed_order_in_range(app@.feeds);
    }
    let shown = filtered_entries(app, &order, state.feed_index, state);
    proof {
        crate::tui::lemma_visible_in_range(app@.feeds, as_ints(order@), state.feed_index as int, state@);
    }
    let empty: Vec<crate::model::EntryView> = Vec::new();
    let entries: &Vec<crate::model::EntryView> = if state.feed_index < order.len() && order[state.feed_index] < app.feeds.len() {
        &app.feeds[order[state.feed_index]].1.entries
    } else {
        &empty
    };
    let ghost es = listed_entries(app@.feeds, as_ints(order@), state.feed_index as int);
    assert(crate::model::entry_records(entries@) =~= es);
    let mut header: Vec<String> = Vec::new();
    header.push(String::from_str("RSS Reader"));
    let n_feeds = decimal_string(order.len());
    header.push(join2("  Feeds: ", n_feeds.as_str()));
    let n_shown = decimal_string(shown.len());
    let n_total = decimal_string(entries.len());
    let mut counts = join3("  Entries: ", n_shown.as_str(), "/");
    counts.append(n_total.as_str());
    header.push(counts);
    header.push(join2("  ", state.sort_mode.label()));
    let input = match state.input_mode {
        Some(InputMode::Search) => join2("Search: ", state.input_buffer.as_str()),
        Some(InputMode::AddFeed) => join2("Add feed: ", state.input_buffer.as_str()),
        None => if state.search_query.as_str().is_empty() {
            String::from_str("Search: (none)")
        } else {
            join2("Search: ", state.search_query.as_str())
        },
    };
    header.push(join2("  ", input.as_str()));
    assert(string_views(header@) =~= header_spec(app@, state@));
    let mut entry_lines: Vec<String> = Vec::new();
    let mut i: usize = 0;
    while i < shown.len()
        invariant
            i <= shown.len(),
            es == crate::model::entry_records(entries@),
            es == listed_entries(app@.feeds, as_ints(order@), state@.feed_index as int),
            as_ints(shown@) == visible_entries(app@.feeds, as_ints(order@), state@.feed_index as int, state@),
            as_ints(order@) == feed_order(app@.feeds),
            forall|j: int| 0 <= j < shown.len() ==> 0 <= #[trigger] as_ints(shown@)[j] < es.len(),
            string_views(entry_lines@) == entry_items_spec(app@, state@).take(i as int),
        decreases shown.len() - i,
    {
        let j = shown[i];
        assert(j as int == as_ints(shown@)[i as int]);
        let e = &entries[j];
        let mark = if e.is_read { "✓" } else { "•" };
        let line = join3(mark, " ", e.title.as_str());
        let ghost prev = entry_lines@;
        entry_lines.push(line);
        assert(string_views(entry_lines@) == string_views(prev).push(line@));
        assert(e@ == es[j as int]);
        assert(es == listed_entries(app@.feeds, feed_order(app@.feeds), state@.feed_index as int));
        assert(entry_items_spec(app@, state@)[i as int] == entry_item_spec(es[j as int]));
        assert(string_views(entry_lines@) =~= entry_items_spec(app@, state@).take(i + 1));
        i += 1;
    }
    assert(entry_items_spec(app@, state@).take(shown.len() as int) =~= entry_items_spec(app@, state@));
    let help_line = match &state.notice {
        Some(n) => join3(state.help.as_str(), "  |  ", n.as_str()),
        None => state.help.clone(),
    };
    let feed_selected = if order.len() == 0 { None } else { Some(state.feed_index) };
    let entry_selected = if shown.len() == 0 { None } else { Some(state.entry_index) };
    Screen {
        header,
        feed_items: feed_items(app, &order),
        feed_selected,
        entry_items: entry_lines,
        entry_selected,
        help_line,
        modal: modal_text(state),
    }
}

} // verus!
