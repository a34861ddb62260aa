//! The state machine behind the terminal interface: which pane has the
//! focus, what is selected, how entries are filtered and ordered, and what
//! each key does. Drawing, reading keys and opening links are left to the
//! program that drives it.

use vstd::prelude::*;
use crate::model::{AppRecord, AppState, EntryRecord, EntryView, FeedRecord, FeedState, entry_records, opt_text};
use crate::order::{sort_by_keys, stable_sort};
use crate::text::{chars_of, contains_text, has_substring, lowercase, to_lower, trim, trim_spec};

verus! {

/// The pane that receives movement keys.
#[derive(Clone, Copy, Debug, PartialEq, Eq, Structural)]
pub enum Focus {
    Feeds,
    Entries,
}

/// How the entries of a feed are ordered or filtered.
#[derive(Clone, Copy, Debug, PartialEq, Eq, Structural)]
pub enum SortMode {
    NewFirst,
    OldFirst,
    UnreadOnly,
    ReadOnly,
}

/// What the text being typed is for.
#[derive(Clone, Copy, Debug, PartialEq, Eq, Structural)]
pub enum InputMode {
    Search,
    AddFeed,
}

/// The dialog shown over the panes.
#[derive(Clone, Copy, Debug, PartialEq, Eq, Structural)]
pub enum ModalMode {
    ConfirmDelete,
    Input,
}

/// The mode after `m` in the cycle new→old, old→new, unread, read.
pub open spec fn next_mode(m: SortMode) -> SortMode {
    match m {
        SortMode::NewFirst => SortMode::OldFirst,
        SortMode::OldFirst => SortMode::UnreadOnly,
        SortMode::UnreadOnly => SortMode::ReadOnly,
        SortMode::ReadOnly => SortMode::NewFirst,
    }
}

/// The caption of a mode.
pub open spec fn mode_label(m: SortMode) -> Seq<char> {
    match m {
        SortMode::NewFirst => "Sort: new→old"@,
        SortMode::OldFirst => "Sort: old→new"@,
        SortMode::UnreadOnly => "Filter: unread"@,
        SortMode::ReadOnly => "Filter: read"@,
    }
}

impl SortMode {
    /// The next mode in the cycle.
    pub fn next(self) -> (r: SortMode)
        ensures
            r == next_mode(self),
    {
        match self {
            SortMode::NewFirst => SortMode::OldFirst,
            SortMode::OldFirst => SortMode::UnreadOnly,
            SortMode::UnreadOnly => SortMode::ReadOnly,
            SortMode::ReadOnly => SortMode::NewFirst,
        }
    }

    /// The caption shown for this mode.
    pub fn label(self) -> (r: &'static str)
        ensures
            r@ == mode_label(self),
    {
        match self {
            SortMode::NewFirst => "Sort: new→old",
            SortMode::OldFirst => "Sort: old→new",
            SortMode::UnreadOnly => "Filter: unread",
            SortMode::ReadOnly => "Filter: read",
        }
    }
}

/// Everything the interface remembers between keys.
#[derive(Debug)]
pub struct TuiState {
    pub feed_index: usize,
    pub entry_index: usize,
    pub focus: Focus,
    pub help: String,
    pub notice: Option<String>,
    pub search_query: String,
    pub input_mode: Option<InputMode>,
    pub input_buffer: String,
    pub modal_mode: Option<ModalMode>,
    pub pending_delete: Option<String>,
    pub sort_mode: SortMode,
}

/// The value a [`TuiState`] stands for.
pub struct TuiRecord {
    pub feed_index: usize,
    pub entry_index: usize,
    pub focus: Focus,
    pub help: Seq<char>,
    pub notice: Option<Seq<char>>,
    pub search_query: Seq<char>,
    pub input_mode: Option<InputMode>,
    pub input_buffer: Seq<char>,
    pub modal_mode: Option<ModalMode>,
    pub pending_delete: Option<Seq<char>>,
    pub sort_mode: SortMode,
}

impl View for TuiState {
    type V = TuiRecord;

    open spec fn view(&self) -> TuiRecord {
        TuiRecord {
            feed_index: self.feed_index,
            entry_index: self.entry_index,
            focus: self.focus,
            help: self.help@,
            notice: opt_text(self.notice),
            search_query: self.search_query@,
            input_mode: self.input_mode,
            input_buffer: self.input_buffer@,
            modal_mode: self.modal_mode,
            pending_delete: opt_text(self.pending_delete),
            sort_mode: self.sort_mode,
        }
    }
}

/// The key help shown at the bottom.
pub open spec fn help_text() -> Seq<char> {
    "q/Esc quit • ← back • Tab switch pane • Enter/→ enter • j/k move • / search • s sort • a add/import • d delete • r refresh"@
}

/// The state the interface starts in.
pub open spec fn initial_tui() -> TuiRecord {
    TuiRecord {
        feed_index: 0,
        entry_index: 0,
        focus: Focus::Feeds,
        help: help_text(),
        notice: None,
        search_query: seq![],
        input_mode: None,
        input_buffer: seq![],
        modal_mode: None,
        pending_delete: None,
        sort_mode: SortMode::NewFirst,
    }
}

impl TuiState {
    /// The state the interface starts in.
    pub fn new() -> (r: TuiState)
        ensures
            r@ == initial_tui(),
    {
        TuiState {
            feed_index: 0,
            entry_index: 0,
            focus: Focus::Feeds,
            help: String::from_str(
                "q/Esc quit • ← back • Tab switch pane • Enter/→ enter • j/k move • / search • s sort • a add/import • d delete • r refresh",
            ),
            notice: None,
            search_query: String::new(),
            input_mode: None,
            input_buffer: String::new(),
            modal_mode: None,
            pending_delete: None,
            sort_mode: SortMode::NewFirst,
        }
    }
}

/// The name shown for a feed: its title, else its URL.
pub open spec fn feed_label_spec(fs: FeedRecord) -> Seq<char> {
    match fs.title {
        Some(t) => t,
        None => fs.feed_url,
    }
}

/// The name shown for `feed`.
pub fn feed_label(feed: &FeedState) -> (r: String)
    ensures
        r@ == feed_label_spec(feed@),
{
    match &feed.title {
        Some(t) => t.clone(),
        None => feed.feed_url.clone(),
    }
}

/// The key feeds are listed by: the lowercase of their name.
pub open spec fn feed_sort_keys(feeds: Seq<(Seq<char>, FeedRecord)>) -> Seq<Seq<char>> {
    feeds.map_values(|p: (Seq<char>, FeedRecord)| lowercase(feed_label_spec(p.1)))
}

/// The positions `0..n`.
pub open spec fn positions(n: nat) -> Seq<int> {
    Seq::new(n, |i: int| i)
}

/// The order in which feeds are listed: positions in the stored list,
/// sorted stably by the lowercase of the feed's name.
pub open spec fn feed_order(feeds: Seq<(Seq<char>, FeedRecord)>) -> Seq<int> {
    stable_sort(positions(feeds.len()), feed_sort_keys(feeds), false)
}

/// The positions as plain integers.
pub open spec fn as_ints(v: Seq<usize>) -> Seq<int> {
    v.map_values(|x: usize| x as int)
}

/// The positions `0..n` as a vector.
fn position_list(n: usize) -> (r: Vec<usize>)
    ensures
        as_ints(r@) == positions(n as nat),
        forall|i: int| 0 <= i < r.len() ==> #[trigger] r@[i] < n,
{
    let mut r: Vec<usize> = Vec::new();
    let mut i: usize = 0;
    while i < n
        invariant
            i <= n,
            as_ints(r@) == positions(i as nat),
            forall|j: int| 0 <= j < r.len() ==> #[trigger] r@[j] < n,
        decreases n - i,
    {
        let ghost prev = r@;
        r.push(i);
        assert(as_ints(r@) == as_ints(prev).push(i as int));
        assert(as_ints(r@) =~= positions((i + 1) as nat));
        i += 1;
    }
    r
}

/// The feeds in the order they are listed, as positions in `app.feeds`.
pub fn collect_feeds(app: &AppState) -> (r: Vec<usize>)
    ensures
        as_ints(r@) == feed_order(app@.feeds),
{
    let mut keys: Vec<Vec<char>> = Vec::new();
    let mut i: usize = 0;
    while i < app.feeds.len()
        invariant
            i <= app.feeds.len(),
            keys@.map_values(|k: Vec<char>| k@) == feed_sort_keys(app@.feeds).take(i as int),
        decreases app.feeds.len() - i,
    {
        let label = feed_label(&app.feeds[i].1);
        let lower = to_lower(label.as_str());
        let ghost prev = keys@;
        keys.push(chars_of(lower.as_str()));
        assert(keys@.map_values(|k: Vec<char>| k@) == prev.map_values(|k: Vec<char>| k@).push(lower@));
        assert(app@.feeds[i as int].1 == app.feeds@[i as int].1@);
        assert(keys@.map_values(|k: Vec<char>| k@) =~= feed_sort_keys(app@.feeds).take(i + 1));
        i += 1;
    }
    assert(feed_sort_keys(app@.feeds).take(app.feeds.len() as int) =~= feed_sort_keys(app@.feeds));
    let all = position_list(app.feeds.len());
    sort_by_keys(&all, &keys, false)
}

/// Whether the mode lets an entry with this read flag through.
pub open spec fn mode_admits(m: SortMode, is_read: bool) -> bool {
    match m {
        SortMode::UnreadOnly => !is_read,
        SortMode::ReadOnly => is_read,
        _ => true,
    }
}

/// Whether an entry is shown under mode `m` and (lowercase, trimmed) query
/// `q`: the mode lets it through, and the query is empty or occurs in the
/// lowercase title or link.
pub open spec fn entry_shown(e: EntryRecord, m: SortMode, q: Seq<char>) -> bool {
    mode_admits(m, e.is_read) && (q.len() == 0 || has_substring(lowercase(e.title), q) || has_substring(
        lowercase(e.link),
        q,
    ))
}

/// The positions among the first `n` entries of those shown, in order.
pub open spec fn shown_positions(entries: Seq<EntryRecord>, m: SortMode, q: Seq<char>, n: nat) -> Seq<int>
    decreases n,
{
    if n == 0 {
        seq![]
    } else {
        let rest = shown_positions(entries, m, q, (n - 1) as nat);
        if entry_shown(entries[n - 1], m, q) {
            rest.push(n - 1)
        } else {
            rest
        }
    }
}

/// The keys entries are ordered by: their publication time, empty when unknown.
pub open spec fn published_keys(entries: Seq<EntryRecord>) -> Seq<Seq<char>> {
    entries.map_values(|e: EntryRecord| crate::feed::text_or_empty(e.published))
}

/// The entries of the feed listed at `index`, none when there is none.
pub open spec fn listed_entries(feeds: Seq<(Seq<char>, FeedRecord)>, order: Seq<int>, index: int) -> Seq<EntryRecord> {
    if 0 <= index < order.len() && 0 <= order[index] < feeds.len() {
        feeds[order[index]].1.entries
    } else {
        seq![]
    }
}

/// The lowercase of the trimmed search query.
pub open spec fn query_of(st: TuiRecord) -> Seq<char> {
    lowercase(trim_spec(st.search_query))
}

/// The entries shown for the feed listed at `index`, as positions in its
/// entry list: those the mode and query let through, newest first by
/// publication time (oldest first in the old→new mode), ties kept in order.
pub open spec fn visible_entries(feeds: Seq<(Seq<char>, FeedRecord)>, order: Seq<int>, index: int, st: TuiRecord) -> Seq<int> {
    let es = listed_entries(feeds, order, index);
    stable_sort(
        shown_positions(es, st.sort_mode, query_of(st), es.len()),
        published_keys(es),
        st.sort_mode != SortMode::OldFirst,
    )
}

/// The entries shown for the feed at position `index` of the listing `feeds`.
pub fn filtered_entries(app: &AppState, feeds: &Vec<usize>, index: usize, state: &TuiState) -> (r: Vec<usize>)
    ensures
        as_ints(r@) == visible_entries(app@.feeds, as_ints(feeds@), index as int, state@),
{
    let ghost es = listed_entries(app@.feeds, as_ints(feeds@), index as int);
    let empty: Vec<EntryView> = Vec::new();
    let entries: &Vec<EntryView> = if index < feeds.len() && feeds[index] < app.feeds.len() {
        &app.feeds[feeds[index]].1.entries
    } else {
        &empty
    };
    assert(entry_records(entries@) =~= es);
    let trimmed = trim(state.search_query.as_str());
    let query = to_lower(trimmed.as_str());
    let mode = state.sort_mode;
    let mut shown: Vec<usize> = Vec::new();
    let mut keys: Vec<Vec<char>> = Vec::new();
    let mut i: usize = 0;
    while i < entries.len()
        invariant
            i <= entries.len(),
            es == entry_records(entries@),
            query@ == query_of(state@),
            mode == state@.sort_mode,
            as_ints(shown@) == shown_positions(es, mode, query@, i as nat),
            forall|j: int| 0 <= j < shown.len() ==> #[trigger] shown@[j] < i,
            keys@.map_values(|k: Vec<char>| k@) == published_keys(es).take(i as int),
        decreases entries.len() - i,
    {
        let e = &entries[i];
        assert(e@ == es[i as int]);
        let admitted = match mode {
            SortMode::UnreadOnly => !e.is_read,
            SortMode::ReadOnly => e.is_read,
            _ => true,
        };
        let keep = if !admitted {
            false
        } else if query.as_str().is_empty() {
            true
        } else {
            let title = to_lower(e.title.as_str());
            let link = to_lower(e.link.as_str());
            contains_text(title.as_str(), query.as_str()) || contains_text(link.as_str(), query.as_str())
        };
        let ghost prev = shown@;
        if keep {
            shown.push(i);
            assert(as_ints(shown@) == as_ints(prev).push(i as int));
        }
        let key = crate::feed::text_of(&e.published);
        let ghost prevk = keys@;
        keys.push(chars_of(key.as_str()));
        assert(keys@.map_values(|k: Vec<char>| k@) == prevk.map_values(|k: Vec<char>| k@).push(key@));
        assert(keys@.map_values(|k: Vec<char>| k@) =~= published_keys(es).take(i + 1));
        i += 1;
    }
    assert(published_keys(es).take(entries.len() as int) =~= published_keys(es));
    sort_by_keys(&shown, &keys, mode != SortMode::OldFirst)
}

/// A selection kept inside a list of `len` items (0 when it is empty).
pub open spec fn normalized_index(i: usize, len: nat) -> usize {
    if len == 0 {
        0
    } else if i >= len {
        (len - 1) as usize
    } else {
        i
    }
}

/// Keeps the selection `index` inside a list of `len` items; returns the
/// selected position, none when the list is empty.
pub fn normalize_selection(index: &mut usize, len: usize) -> (r: Option<usize>)
    ensures
        *final(index) == normalized_index(*old(index), len as nat),
        r == if len == 0 { None } else { Some(*final(index)) },
{
    if len == 0 {
        *index = 0;
        None
    } else {
        if *index >= len {
            *index = len - 1;
        }
        Some(*index)
    }
}

/// A selection read as a signed position, as `usize as isize` reads it:
/// values beyond `isize::MAX` wrap to negative ones.
pub open spec fn signed_index(i: usize) -> int {
    if i <= isize::MAX {
        i as int
    } else {
        i - (usize::MAX + 1)
    }
}

/// Whether moving selection `i` by `delta` in a list of `len` items is
/// defined: the sum stays within `isize`, and the last position fits it.
pub open spec fn move_defined(i: usize, len: nat, delta: int) -> bool {
    len == 0 || (len <= isize::MAX + 1 && isize::MIN <= signed_index(i) + delta <= isize::MAX)
}

/// The selection after moving `delta` places in a list of `len` items:
/// clamped to the list, 0 when it is empty.
pub open spec fn moved_index(i: usize, len: nat, delta: int) -> usize {
    if len == 0 {
        0
    } else if signed_index(i) + delta < 0 {
        0
    } else if signed_index(i) + delta > len - 1 {
        (len - 1) as usize
    } else {
        (signed_index(i) + delta) as usize
    }
}

/// The selection read as a signed position (see [`signed_index`]).
fn signed_of(i: usize) -> (r: isize)
    ensures
        r as int == signed_index(i),
{
    if i <= isize::MAX as usize {
        i as isize
    } else {
        let mag = usize::MAX - i;
        -(mag as isize) - 1
    }
}

/// Moves the selection `index` by `delta` places within a list of `len` items.
pub fn move_selection(index: &mut usize, len: usize, delta: isize)
    requires
        move_defined(*old(index), len as nat, delta as int),
    ensures
        *final(index) == moved_index(*old(index), len as nat, delta as int),
{
    if len == 0 {
        *index = 0;
        return;
    }
    let max = (len - 1) as isize;
    let signed = signed_of(*index);
    let sum = signed + delta;
    let next = if sum < 0 {
        0
    } else if sum > max {
        max
    } else {
        sum
    };
    *index = next as usize;
}

/// The state with both selections kept inside the lists they point into.
pub open spec fn normalized_tui(app: AppRecord, st: TuiRecord) -> TuiRecord {
    let order = feed_order(app.feeds);
    let fi = normalized_index(st.feed_index, order.len());
    let ei = normalized_index(st.entry_index, visible_entries(app.feeds, order, fi as int, st).len());
    TuiRecord { feed_index: fi, entry_index: ei, ..st }
}

/// Keeps both selections inside the lists they point into.
pub fn normalize_state(app: &AppState, state: &mut TuiState)
    ensures
        final(state)@ == normalized_tui(app@, old(state)@),
{
    let feeds = collect_feeds(app);
    normalize_selection(&mut state.feed_index, feeds.len());
    let entries = filtered_entries(app, &feeds, state.feed_index, state);
    normalize_selection(&mut state.entry_index, entries.len());
}

/// The listing position of the feed stored under `url`, if it is listed.
pub open spec fn listing_position(feeds: Seq<(Seq<char>, FeedRecord)>, order: Seq<int>, url: Seq<char>) -> Option<int> {
    if exists|p: int| 0 <= p < order.len() && 0 <= order[p] < feeds.len() && #[trigger] feeds[order[p]].0 == url {
        Some(choose|p: int| 0 <= p < order.len() && 0 <= order[p] < feeds.len() && #[trigger] feeds[order[p]].0 == url
            && forall|q: int| 0 <= q < p ==> !(0 <= order[q] < feeds.len() && #[trigger] feeds[order[q]].0 == url))
    } else {
        None
    }
}

/// When some of the first `n` listed feeds is stored under `url`, a first
/// such position exists.
proof fn lemma_first_listed(feeds: Seq<(Seq<char>, FeedRecord)>, order: Seq<int>, url: Seq<char>, n: int)
    requires
        0 <= n <= order.len(),
        exists|p: int| 0 <= p < n && 0 <= order[p] < feeds.len() && #[trigger] feeds[order[p]].0 == url,
    ensures
        exists|p: int| 0 <= p < n && 0 <= order[p] < feeds.len() && #[trigger] feeds[order[p]].0 == url
            && forall|q: int| 0 <= q < p ==> !(0 <= order[q] < feeds.len() && #[trigger] feeds[order[q]].0 == url),
    decreases n,
{
    if exists|p: int| 0 <= p < n - 1 && 0 <= order[p] < feeds.len() && #[trigger] feeds[order[p]].0 == url {
        lemma_first_listed(feeds, order, url, n - 1);
    } else {
        assert(0 <= order[n - 1] < feeds.len() && feeds[order[n - 1]].0 == url);
    }
}

/// [`listing_position`] is the first position of the listing whose feed is
/// stored under `url`, and `None` exactly when no listed feed is.
pub proof fn lemma_listing_position(feeds: Seq<(Seq<char>, FeedRecord)>, order: Seq<int>, url: Seq<char>)
    ensures
        match listing_position(feeds, order, url) {
            Some(p) => {
                &&& 0 <= p < order.len()
                &&& 0 <= order[p] < feeds.len()
                &&& feeds[order[p]].0 == url
                &&& forall|q: int| 0 <= q < p ==> !(0 <= order[q] < feeds.len() && #[trigger] feeds[order[q]].0 == url)
            },
            None => forall|p: int| 0 <= p < order.len() && 0 <= order[p] < feeds.len() ==> #[trigger] feeds[order[p]].0 != url,
        },
{
    if exists|p: int| 0 <= p < order.len() && 0 <= order[p] < feeds.len() && #[trigger] feeds[order[p]].0 == url {
        lemma_first_listed(feeds, order, url, order.len() as int);
    }
}

/// Selects the feed stored under `feed_url` in the listing, if it is there.
pub fn select_feed(state: &mut TuiState, app: &AppState, feed_url: &str)
    ensures
        final(state)@ == match listing_position(app@.feeds, feed_order(app@.feeds), feed_url@) {
            Some(p) => TuiRecord { feed_index: p as usize, ..old(state)@ },
            None => old(state)@,
        },
{
    let feeds = collect_feeds(app);
    let ghost order = feed_order(app@.feeds);
    let mut p: usize = 0;
    while p < feeds.len()
        invariant
            p <= feeds.len(),
            as_ints(feeds@) == order,
            order == feed_order(app@.feeds),
            state@ == old(state)@,
            forall|q: int| 0 <= q < p ==> !(0 <= order[q] < app@.feeds.len() && #[trigger] app@.feeds[order[q]].0 == feed_url@),
        decreases feeds.len() - p,
    {
        let f = feeds[p];
        assert(order[p as int] == f as int);
        if f < app.feeds.len() && crate::text::same_text(app.feeds[f].0.as_str(), feed_url) {
            assert(app@.feeds[order[p as int]].0 == feed_url@);
            let ghost c = choose|c: int| 0 <= c < order.len() && 0 <= order[c] < app@.feeds.len() && #[trigger] app@.feeds[order[c]].0 == feed_url@
                && forall|q: int| 0 <= q < c ==> !(0 <= order[q] < app@.feeds.len() && #[trigger] app@.feeds[order[q]].0 == feed_url@);
            assert(c == p as int) by {
                assert(0 <= order[p as int] < app@.feeds.len() && app@.feeds[order[p as int]].0 == feed_url@);
                if c < p as int {
                    assert(!(0 <= order[c] < app@.feeds.len() && app@.feeds[order[c]].0 == feed_url@));
                } else if c > p as int {
                    assert(!(0 <= order[p as int] < app@.feeds.len() && app@.feeds[order[p as int]].0 == feed_url@));
                }
            }
            assert(listing_position(app@.feeds, order, feed_url@) == Some(p as int));
            state.feed_index = p;
            return;
        }
        p += 1;
    }
    assert(listing_position(app@.feeds, order, feed_url@) is None);
}

/// The first position in `entries` of an entry with key `key`, if any.
pub open spec fn first_with_key(entries: Seq<EntryRecord>, key: Seq<char>) -> Option<int> {
    if exists|j: int| 0 <= j < entries.len() && #[trigger] entries[j].key == key {
        Some(choose|j: int| 0 <= j < entries.len() && #[trigger] entries[j].key == key
            && forall|q: int| 0 <= q < j ==> #[trigger] entries[q].key != key)
    } else {
        None
    }
}

/// When some entry has key `key`, a first one does, and
/// [`first_with_key`] is that position.
pub proof fn lemma_first_with_key(entries: Seq<EntryRecord>, key: Seq<char>, n: int)
    requires
        0 <= n <= entries.len(),
        exists|j: int| 0 <= j < n && #[trigger] entries[j].key == key,
    ensures
        exists|j: int| 0 <= j < n && #[trigger] entries[j].key == key
            && forall|q: int| 0 <= q < j ==> #[trigger] entries[q].key != key,
    decreases n,
{
    if exists|j: int| 0 <= j < n - 1 && #[trigger] entries[j].key == key {
        lemma_first_with_key(entries, key, n - 1);
    } else {
        assert(entries[n - 1].key == key);
        assert(forall|q: int| 0 <= q < n - 1 ==> #[trigger] entries[q].key != key);
    }
}

/// The feeds after marking read the first entry with key `entry_key` of
/// the feed stored under `feed_key`; unchanged when either is missing.
pub open spec fn mark_read_spec(feeds: Seq<(Seq<char>, FeedRecord)>, feed_key: Seq<char>, entry_key: Seq<char>) -> Seq<(Seq<char>, FeedRecord)> {
    if crate::model::has_key(feeds, feed_key) {
        let i = crate::model::key_pos(feeds, feed_key);
        let es = feeds[i].1.entries;
        match first_with_key(es, entry_key) {
            Some(j) => feeds.update(
                i,
                (feeds[i].0, FeedRecord { entries: es.update(j, EntryRecord { is_read: true, ..es[j] }), ..feeds[i].1 }),
            ),
            None => feeds,
        }
    } else {
        feeds
    }
}

/// The position of the first entry with key `key`.
fn find_entry(entries: &Vec<EntryView>, key: &str) -> (r: Option<usize>)
    ensures
        match r {
            Some(j) => j < entries.len() && first_with_key(entry_records(entries@), key@) == Some(j as int),
            None => first_with_key(entry_records(entries@), key@) is None,
        },
{
    let ghost es = entry_records(entries@);
    let mut j: usize = 0;
    while j < entries.len()
        invariant
            j <= entries.len(),
            es == entry_records(entries@),
            forall|q: int| 0 <= q < j ==> #[trigger] es[q].key != key@,
        decreases entries.len() - j,
    {
        if crate::text::same_text(entries[j].key.as_str(), key) {
            assert(es[j as int].key == key@);
            let ghost c = choose|c: int| 0 <= c < es.len() && #[trigger] es[c].key == key@
                && forall|q: int| 0 <= q < c ==> #[trigger] es[q].key != key@;
            assert(c == j as int) by {
                if c < j as int {
                    assert(es[c].key != key@);
                } else if c > j as int {
                    assert(es[j as int].key != key@);
                }
            }
            return Some(j);
        }
        j += 1;
    }
    None
}

/// Marks read the first entry with key `entry_key` of one feed.
#[verifier::spinoff_prover]
fn mark_in_feed(fs: &mut FeedState, entry_key: &str)
    ensures
        final(fs)@ == match first_with_key(old(fs)@.entries, entry_key@) {
            Some(j) => FeedRecord {
                entries: old(fs)@.entries.update(j, EntryRecord { is_read: true, ..old(fs)@.entries[j] }),
                ..old(fs)@
            },
            None => old(fs)@,
        },
{
    let ghost es = fs@.entries;
    if let Some(j) = find_entry(&fs.entries, entry_key) {
        let mut e = fs.entries.remove(j);
        e.is_read = true;
        fs.entries.insert(j, e);
        assert(fs@.entries =~= es.update(j as int, EntryRecord { is_read: true, ..es[j as int] }));
    }
}

/// Marks read the first entry with key `entry_key` of the feed stored under `feed_key`.
pub fn mark_entry_read(app: &mut AppState, feed_key: &str, entry_key: &str)
    requires
        old(app)@.wf(),
    ensures
        final(app)@.version == old(app)@.version,
        final(app)@.feeds == mark_read_spec(old(app)@.feeds, feed_key@, entry_key@),
        final(app)@.wf(),
{
    let ghost feeds0 = app@.feeds;
    if let Some(i) = app.find_feed(feed_key) {
        let (key, mut fs) = app.feeds.remove(i);
        mark_in_feed(&mut fs, entry_key);
        let ghost v = (key@, fs@);
        app.feeds.insert(i, (key, fs));
        assert(app@.feeds =~= feeds0.update(i as int, v));
        assert(app@.wf()) by {
            assert forall|a: int, b: int| 0 <= a < app@.feeds.len() && 0 <= b < app@.feeds.len() && a != b implies #[trigger] app@.feeds[a].0 != #[trigger] app@.feeds[b].0 by {
                assert(feeds0[a].0 == app@.feeds[a].0);
                assert(feeds0[b].0 == app@.feeds[b].0);
            }
        }
    }
}

/// The state after leaving text input: a search being typed is dropped
/// (query and text cleared) when `clear_search`; the input dialog closes and
/// the notice is cleared.
pub open spec fn exit_input_spec(st: TuiRecord, clear_search: bool) -> TuiRecord {
    let cleared = st.input_mode == Some(InputMode::Search) && clear_search;
    TuiRecord {
        search_query: if cleared { seq![] } else { st.search_query },
        input_buffer: if cleared { seq![] } else { st.input_buffer },
        input_mode: None,
        modal_mode: if st.modal_mode == Some(ModalMode::Input) { None } else { st.modal_mode },
        notice: None,
        ..st
    }
}

/// Leaves text input (see [`exit_input_spec`]).
pub fn exit_input_mode(state: &mut TuiState, clear_search: bool)
    ensures
        final(state)@ == exit_input_spec(old(state)@, clear_search),
{
    if state.input_mode == Some(InputMode::Search) && clear_search {
        state.search_query = String::new();
        state.input_buffer = String::new();
    }
    state.input_mode = None;
    if state.modal_mode == Some(ModalMode::Input) {
        state.modal_mode = None;
    }
    if state.notice.is_some() {
        state.notice = None;
    }
}

/// A key as the interface sees it.
#[derive(Clone, Copy, Debug, PartialEq, Eq, Structural)]
pub enum Key {
    Char(char),
    Esc,
    Enter,
    Backspace,
    Left,
    Right,
    Up,
    Down,
    Tab,
    Other,
}

/// `s` without its last character, if it has one.
pub open spec fn drop_last_char(s: Seq<char>) -> Seq<char> {
    if s.len() > 0 {
        s.drop_last()
    } else {
        s
    }
}

/// The text with its last character removed, as `String::pop` leaves it.
fn without_last_char(s: &String) -> (r: String)
    ensures
        r@ == drop_last_char(s@),
{
    let cs = chars_of(s.as_str());
    if cs.len() == 0 {
        String::new()
    } else {
        let r = crate::text::string_of_chars(&cs, 0, cs.len() - 1);
        assert(r@ =~= s@.drop_last());
        r
    }
}

/// The state after the typed text became `buffer`: while searching, the
/// query follows the text and the entry selection goes back to the top.
pub open spec fn typed_spec(st: TuiRecord, buffer: Seq<char>) -> TuiRecord {
    if st.input_mode == Some(InputMode::Search) {
        TuiRecord { input_buffer: buffer, search_query: buffer, entry_index: 0, ..st }
    } else {
        TuiRecord { input_buffer: buffer, ..st }
    }
}

/// Starting to add what was typed: the trimmed text, or, when it is empty,
/// a notice saying so.
pub open spec fn begin_add_spec(st: TuiRecord) -> (TuiRecord, Option<Seq<char>>) {
    let raw = trim_spec(st.input_buffer);
    if raw.len() == 0 {
        (TuiRecord { notice: Some("Feed URL or file path is empty"@), ..st }, None)
    } else {
        (st, Some(raw))
    }
}

/// What a key does while text is being typed: Esc drops the input (and a
/// search), Backspace removes the last character, a character is added,
/// Enter applies a search or hands the trimmed text over to be added.
pub open spec fn input_key_spec(st: TuiRecord, key: Key) -> (TuiRecord, Option<Seq<char>>) {
    match key {
        Key::Esc => (exit_input_spec(st, true), None),
        Key::Backspace => (typed_spec(st, drop_last_char(st.input_buffer)), None),
        Key::Enter => match st.input_mode {
            Some(InputMode::Search) => (TuiRecord { entry_index: 0, ..exit_input_spec(st, false) }, None),
            Some(InputMode::AddFeed) => begin_add_spec(st),
            None => (st, None),
        },
        Key::Char(c) => (typed_spec(st, st.input_buffer.push(c)), None),
        _ => (st, None),
    }
}

/// Handles a key while text is being typed (see [`input_key_spec`]); returns
/// the text to add as a feed or feeds file, when Enter asks for that.
pub fn handle_input_key(state: &mut TuiState, key: Key) -> (r: Option<String>)
    ensures
        (final(state)@, opt_text(r)) == input_key_spec(old(state)@, key),
{
    match key {
        Key::Esc => {
            exit_input_mode(state, true);
            None
        },
        Key::Backspace => {
            state.input_buffer = without_last_char(&state.input_buffer);
            if state.input_mode == Some(InputMode::Search) {
                state.search_query = state.input_buffer.clone();
                state.entry_index = 0;
            }
            None
        },
        Key::Enter => match state.input_mode {
            Some(InputMode::Search) => {
                exit_input_mode(state, false);
                state.entry_index = 0;
                None
            },
            Some(InputMode::AddFeed) => {
                let raw = trim(state.input_buffer.as_str());
                if raw.as_str().is_empty() {
                    state.notice = Some(String::from_str("Feed URL or file path is empty"));
                    None
                } else {
                    Some(raw)
                }
            },
            None => None,
        },
        Key::Char(c) => {
            crate::text::push_char(&mut state.input_buffer, c);
            if state.input_mode == Some(InputMode::Search) {
                state.search_query = state.input_buffer.clone();
                state.entry_index = 0;
            }
            None
        },
        _ => None,
    }
}

/// Asking to delete the feed selected in the listing: the confirmation
/// dialog opens for it, or a notice says no feed is selected.
pub open spec fn request_delete_spec(app: AppRecord, st: TuiRecord) -> TuiRecord {
    let order = feed_order(app.feeds);
    if st.feed_index < order.len() {
        TuiRecord {
            pending_delete: Some(app.feeds[order[st.feed_index as int]].0),
            modal_mode: Some(ModalMode::ConfirmDelete),
            ..st
        }
    } else {
        TuiRecord { notice: Some("No feed selected"@), ..st }
    }
}

/// Every listed position points into the feed list.
pub proof fn lemma_feed_order_in_range(feeds: Seq<(Seq<char>, FeedRecord)>)
    ensures
        feed_order(feeds).len() == feeds.len(),
        forall|p: int| 0 <= p < feeds.len() ==> 0 <= #[trigger] feed_order(feeds)[p] < feeds.len(),
{
    crate::order::lemma_stable_sort_len(positions(feeds.len()), feed_sort_keys(feeds), false);
    crate::order::lemma_stable_sort_items(positions(feeds.len()), feed_sort_keys(feeds), false);
    assert forall|p: int| 0 <= p < feeds.len() implies 0 <= #[trigger] feed_order(feeds)[p] < feeds.len() by {
        let x = feed_order(feeds)[p];
        assert(feed_order(feeds).contains(x));
        assert(positions(feeds.len()).contains(x));
    }
}

/// Asks to delete the feed selected in the listing (see [`request_delete_spec`]).
pub fn request_delete_selected_feed(app: &AppState, state: &mut TuiState)
    ensures
        final(state)@ == request_delete_spec(app@, old(state)@),
{
    let feeds = collect_feeds(app);
    proof {
        lemma_feed_order_in_range(app@.feeds);
    }
    if state.feed_index < feeds.len() {
        let f = feeds[state.feed_index];
        assert(f as int == feed_order(app@.feeds)[state.feed_index as int]);
        state.pending_delete = Some(app.feeds[f].0.clone());
        state.modal_mode = Some(ModalMode::ConfirmDelete);
    } else {
        state.notice = Some(String::from_str("No feed selected"));
    }
}

/// Confirming the deletion asked for: the feed stored under the pending key
/// is removed ("Feed deleted"; the selection moves up one, and back to the
/// feed pane at the top when no feed is left) or found missing ("Feed not
/// found"); the dialog closes either way.
pub open spec fn confirm_delete_spec(app: AppRecord, st: TuiRecord) -> (AppRecord, TuiRecord) {
    match st.pending_delete {
        None => (app, TuiRecord { modal_mode: None, ..st }),
        Some(k) => if crate::model::has_key(app.feeds, k) {
            let feeds2 = app.feeds.remove(crate::model::key_pos(app.feeds, k));
            let fi = if st.feed_index > 0 { (st.feed_index - 1) as usize } else { st.feed_index };
            (
                AppRecord { feeds: feeds2, ..app },
                TuiRecord {
                    pending_delete: None,
                    notice: Some("Feed deleted"@),
                    entry_index: 0,
                    feed_index: if feeds2.len() == 0 { 0 } else { fi },
                    focus: if feeds2.len() == 0 { Focus::Feeds } else { st.focus },
                    modal_mode: None,
                    ..st
                },
            )
        } else {
            (app, TuiRecord { pending_delete: None, notice: Some("Feed not found"@), modal_mode: None, ..st })
        },
    }
}

/// Deletes the feed whose deletion was asked for (see [`confirm_delete_spec`]).
pub fn confirm_delete_selected_feed(app: &mut AppState, state: &mut TuiState)
    requires
        old(app)@.wf(),
    ensures
        (final(app)@, final(state)@) == confirm_delete_spec(old(app)@, old(state)@),
        final(app)@.wf(),
{
    let pending = state.pending_delete.take();
    let feed_key = match pending {
        None => {
            state.modal_mode = None;
            return;
        },
        Some(k) => k,
    };
    let ghost feeds0 = app@.feeds;
    match app.find_feed(feed_key.as_str()) {
        Some(i) => {
            app.feeds.remove(i);
            assert(app@.feeds =~= feeds0.remove(i as int));
            state.notice = Some(String::from_str("Feed deleted"));
            state.entry_index = 0;
            if state.feed_index > 0 {
                state.feed_index = state.feed_index - 1;
            }
            if app.feeds.len() == 0 {
                state.feed_index = 0;
                state.focus = Focus::Feeds;
            }
            assert(app@.wf()) by {
                assert forall|a: int, b: int| 0 <= a < app@.feeds.len() && 0 <= b < app@.feeds.len() && a != b implies #[trigger] app@.feeds[a].0 != #[trigger] app@.feeds[b].0 by {
                    let a2 = if a < i { a } else { a + 1 };
                    let b2 = if b < i { b } else { b + 1 };
                    assert(app@.feeds[a] == feeds0[a2] && app@.feeds[b] == feeds0[b2]);
                }
            }
        },
        None => {
            state.notice = Some(String::from_str("Feed not found"));
        },
    }
    state.modal_mode = None;
}

/// What a key does while the deletion dialog is open: y confirms, n or Esc
/// cancels, anything else is ignored.
pub open spec fn confirm_key_spec(app: AppRecord, st: TuiRecord, key: Key) -> (AppRecord, TuiRecord) {
    match key {
        Key::Char('y') | Key::Char('Y') => confirm_delete_spec(app, st),
        Key::Char('n') | Key::Char('N') | Key::Esc => (app, TuiRecord { pending_delete: None, modal_mode: None, ..st }),
        _ => (app, st),
    }
}

/// Handles a key while the deletion dialog is open (see [`confirm_key_spec`]).
pub fn handle_confirm_key(app: &mut AppState, state: &mut TuiState, key: Key)
    requires
        old(app)@.wf(),
    ensures
        (final(app)@, final(state)@) == confirm_key_spec(old(app)@, old(state)@, key),
        final(app)@.wf(),
{
    match key {
        Key::Char('y') | Key::Char('Y') => confirm_delete_selected_feed(app, state),
        Key::Char('n') | Key::Char('N') | Key::Esc => {
            state.pending_delete = None;
            state.modal_mode = None;
        },
        _ => {},
    }
}

/// The feeds after adding `url`: unchanged when a feed is stored under it,
/// else a fresh feed for it at the end.
pub open spec fn insert_feed_spec(feeds: Seq<(Seq<char>, FeedRecord)>, url: Seq<char>) -> Seq<(Seq<char>, FeedRecord)> {
    if crate::model::has_key(feeds, url) {
        feeds
    } else {
        feeds.push((url, crate::model::fresh_feed(url)))
    }
}

/// Adds a fresh feed for `feed_url` unless one is stored under it; tells
/// whether it was added.
pub fn insert_feed(app: &mut AppState, feed_url: &str) -> (added: bool)
    requires
        old(app)@.wf(),
    ensures
        added == !crate::model::has_key(old(app)@.feeds, feed_url@),
        final(app)@.feeds == insert_feed_spec(old(app)@.feeds, feed_url@),
        final(app)@.version == old(app)@.version,
        final(app)@.wf(),
{
    if app.find_feed(feed_url).is_some() {
        return false;
    }
    let ghost feeds0 = app@.feeds;
    app.feeds.push((String::from_str(feed_url), FeedState::fresh(feed_url)));
    assert(app@.feeds == feeds0.push((feed_url@, crate::model::fresh_feed(feed_url@))));
    assert(app@.wf()) by {
        assert forall|a: int, b: int| 0 <= a < app@.feeds.len() && 0 <= b < app@.feeds.len() && a != b implies #[trigger] app@.feeds[a].0 != #[trigger] app@.feeds[b].0 by {
            if a < feeds0.len() && b < feeds0.len() {
                assert(feeds0[a].0 != feeds0[b].0);
            } else if a < feeds0.len() {
                assert(app@.feeds[a] == feeds0[a]);
            } else {
                assert(app@.feeds[b] == feeds0[b]);
            }
        }
    }
    true
}

/// The state once the text being added has been dealt with: the text is
/// cleared and the input dialog closed.
pub open spec fn input_done(st: TuiRecord) -> TuiRecord {
    TuiRecord { input_buffer: seq![], input_mode: None, modal_mode: None, ..st }
}

/// Clears the text being added and closes the input dialog.
fn finish_input(state: &mut TuiState)
    ensures
        final(state)@ == input_done(old(state)@),
{
    state.input_buffer = String::new();
    state.input_mode = None;
    state.modal_mode = None;
}

/// Adding the typed feed URL `raw`: a URL that is not stored yet is added
/// and must now be fetched (its text is returned); one already stored gives
/// a notice and ends the input; an invalid one gives the error's text as
/// notice and keeps the input open.
pub open spec fn add_url_spec(app: AppRecord, st: TuiRecord, raw: Seq<char>) -> (AppRecord, TuiRecord, Option<Seq<char>>) {
    if crate::config::url_parses(raw) {
        if crate::model::has_key(app.feeds, raw) {
            (app, input_done(TuiRecord { notice: Some("Feed already exists"@), ..st }), None)
        } else {
            (AppRecord { feeds: insert_feed_spec(app.feeds, raw), ..app }, st, Some(raw))
        }
    } else {
        (
            app,
            TuiRecord {
                notice: Some(crate::config::failure_message(
                    crate::config::ResolveFailure::InvalidUrl { value: raw, line: None },
                )),
                ..st
            },
            None,
        )
    }
}

/// Adds the typed feed URL `raw` (see [`add_url_spec`]); returns the URL to
/// fetch when it was added.
pub fn add_feed_url(app: &mut AppState, state: &mut TuiState, raw: &str) -> (r: Option<String>)
    requires
        old(app)@.wf(),
    ensures
        (final(app)@, final(state)@, opt_text(r)) == add_url_spec(old(app)@, old(state)@, raw@),
        final(app)@.wf(),
{
    match crate::config::validate_feed_url(raw, None) {
        Ok(validated) => {
            if insert_feed(app, validated.as_str()) {
                Some(validated)
            } else {
                state.notice = Some(String::from_str("Feed already exists"));
                finish_input(state);
                None
            }
        },
        Err(err) => {
            state.notice = Some(err.message());
            None
        },
    }
}

/// The notice after fetching following an addition: `ok` on success, the
/// failure's text otherwise.
pub open spec fn refresh_notice(refresh: Result<(), Seq<char>>, ok: Seq<char>) -> Seq<char> {
    match refresh {
        Ok(()) => ok,
        Err(e) => "Refresh failed: "@ + e,
    }
}

/// The value of a fetch outcome.
pub open spec fn outcome_view(r: Result<(), String>) -> Result<(), Seq<char>> {
    match r {
        Ok(()) => Ok(()),
        Err(e) => Err(e@),
    }
}

/// The notice for the outcome of a fetch.
fn refresh_message(refresh: &Result<(), String>, ok: &str) -> (r: String)
    ensures
        r@ == refresh_notice(outcome_view(*refresh), ok@),
{
    match refresh {
        Ok(()) => String::from_str(ok),
        Err(e) => crate::text::join2("Refresh failed: ", e.as_str()),
    }
}

/// Finishing the addition of `url` once it was fetched: the notice says how
/// the fetch went, the new feed is selected, and the input is closed.
pub open spec fn finish_add_spec(app: AppRecord, st: TuiRecord, refresh: Result<(), Seq<char>>, url: Seq<char>) -> TuiRecord {
    let st1 = TuiRecord { notice: Some(refresh_notice(refresh, "Feed added"@)), ..st };
    let st2 = match listing_position(app.feeds, feed_order(app.feeds), url) {
        Some(p) => TuiRecord { feed_index: p as usize, ..st1 },
        None => st1,
    };
    input_done(st2)
}

/// Finishes the addition of `url` (see [`finish_add_spec`]).
pub fn finish_add_feed(app: &AppState, state: &mut TuiState, refresh: Result<(), String>, url: &str)
    ensures
        final(state)@ == finish_add_spec(app@, old(state)@, outcome_view(refresh), url@),
{
    state.notice = Some(refresh_message(&refresh, "Feed added"));
    select_feed(state, app, url);
    finish_input(state);
}

/// The feeds after adding each of `urls` that is not stored yet, and the
/// first and the number of those added.
pub open spec fn import_spec(feeds: Seq<(Seq<char>, FeedRecord)>, urls: Seq<Seq<char>>) -> (Seq<(Seq<char>, FeedRecord)>, Option<Seq<char>>, nat)
    decreases urls.len(),
{
    if urls.len() == 0 {
        (feeds, None, 0)
    } else {
        let (f1, first, n) = import_spec(feeds, urls.drop_last());
        let u = urls.last();
        if crate::model::has_key(f1, u) {
            (f1, first, n)
        } else {
            (insert_feed_spec(f1, u), if first is None { Some(u) } else { first }, n + 1)
        }
    }
}

/// Importing the feeds file at `path`, given what reading it gave: an
/// unreadable or invalid file gives the error's text as notice; a file
/// without feeds gives a notice; otherwise the feeds not stored yet are
/// added, and when none was, a notice says so and the input ends; when some
/// were, the first of them and their number are returned, to be fetched.
pub open spec fn import_file_spec(
    app: AppRecord,
    st: TuiRecord,
    path: Seq<char>,
    contents: Result<Seq<char>, Seq<char>>,
) -> (AppRecord, TuiRecord, Option<(Seq<char>, nat)>) {
    match crate::config::read_feeds_file_spec(path, contents) {
        Err(e) => (app, TuiRecord { notice: Some(crate::config::failure_message(e)), ..st }, None),
        Ok(urls) => if urls.len() == 0 {
            (app, TuiRecord { notice: Some("No feeds found in file"@), ..st }, None)
        } else {
            let (feeds2, first, n) = import_spec(app.feeds, urls);
            if n == 0 {
                (AppRecord { feeds: feeds2, ..app }, input_done(TuiRecord { notice: Some("Feeds already exist"@), ..st }), None)
            } else {
                (AppRecord { feeds: feeds2, ..app }, st, Some((first.unwrap(), n)))
            }
        },
    }
}

/// What [`import_feeds_file`] hands back for fetching: the first feed added
/// and how many were added.
pub open spec fn import_view(r: Option<(String, usize)>) -> Option<(Seq<char>, nat)> {
    match r {
        Some((u, n)) => Some((u@, n as nat)),
        None => None,
    }
}

/// Imports the feeds file at `path` (see [`import_file_spec`]).
pub fn import_feeds_file(app: &mut AppState, state: &mut TuiState, path: &str, contents: Result<String, String>) -> (r: Option<(String, usize)>)
    requires
        old(app)@.wf(),
    ensures
        (final(app)@, final(state)@, import_view(r)) == import_file_spec(
            old(app)@,
            old(state)@,
            path@,
            crate::config::read_view(contents),
        ),
        final(app)@.wf(),
{
    let ghost contents_view = crate::config::read_view(contents);
    let feeds = match crate::config::parse_feeds_file(path, contents) {
        Err(err) => {
            state.notice = Some(err.message());
            return None;
        },
        Ok(feeds) => feeds,
    };
    if feeds.len() == 0 {
        state.notice = Some(String::from_str("No feeds found in file"));
        return None;
    }
    let ghost urls = crate::text::string_views(feeds@);
    let ghost feeds0 = app@.feeds;
    let mut first_added: Option<String> = None;
    let mut added_count: usize = 0;
    let mut i: usize = 0;
    while i < feeds.len()
        invariant
            i <= feeds.len(),
            urls == crate::text::string_views(feeds@),
            app@.wf(),
            app@.version == old(app)@.version,
            added_count <= i,
            (app@.feeds, opt_text(first_added), added_count as nat) == import_spec(feeds0, urls.take(i as int)),
        decreases feeds.len() - i,
    {
        assert(urls.take(i + 1).drop_last() =~= urls.take(i as int));
        assert(urls.take(i + 1).last() == feeds@[i as int]@);
        if insert_feed(app, feeds[i].as_str()) {
            if first_added.is_none() {
                first_added = Some(feeds[i].clone());
            }
            added_count += 1;
        }
        i += 1;
    }
    assert(urls.take(feeds.len() as int) =~= urls);
    proof {
        lemma_import_first(feeds0, urls);
    }
    if added_count == 0 {
        state.notice = Some(String::from_str("Feeds already exist"));
        finish_input(state);
        None
    } else {
        match first_added {
            Some(first) => Some((first, added_count)),
            None => {
                assert(false);
                None
            },
        }
    }
}

/// Once-added feeds count is positive exactly when a first one is known.
pub proof fn lemma_import_first(feeds: Seq<(Seq<char>, FeedRecord)>, urls: Seq<Seq<char>>)
    ensures
        (import_spec(feeds, urls).2 > 0) == (import_spec(feeds, urls).1 is Some),
    decreases urls.len(),
{
    if urls.len() > 0 {
        lemma_import_first(feeds, urls.drop_last());
    }
}

/// Finishing an import once the new feeds were fetched: the notice says how
/// the fetch went ("Imported N feeds"), the first new feed is selected, and
/// the input is closed.
pub open spec fn finish_import_spec(
    app: AppRecord,
    st: TuiRecord,
    refresh: Result<(), Seq<char>>,
    first: Seq<char>,
    count: nat,
) -> TuiRecord {
    let ok = "Imported "@ + crate::text::decimal(count) + " feeds"@;
    let st1 = TuiRecord { notice: Some(refresh_notice(refresh, ok)), ..st };
    let st2 = match listing_position(app.feeds, feed_order(app.feeds), first) {
        Some(p) => TuiRecord { feed_index: p as usize, ..st1 },
        None => st1,
    };
    input_done(st2)
}

/// Finishes an import (see [`finish_import_spec`]).
pub fn finish_import(app: &AppState, state: &mut TuiState, refresh: Result<(), String>, first: &str, count: usize)
    ensures
        final(state)@ == finish_import_spec(app@, old(state)@, outcome_view(refresh), first@, count as nat),
{
    let digits = crate::text::decimal_string(count);
    let ok = crate::text::join3("Imported ", digits.as_str(), " feeds");
    state.notice = Some(refresh_message(&refresh, ok.as_str()));
    select_feed(state, app, first);
    finish_input(state);
}

/// What the driver of the interface has to do after a key.
#[derive(Debug)]
pub enum KeyAction {
    /// Nothing: draw again and wait for the next key.
    Stay,
    /// Leave the interface.
    Quit,
    /// Fetch every feed, then report with [`after_refresh`].
    Refresh,
    /// Open this link in a browser, then report with [`after_open`].
    Open(String),
    /// Add this feed URL or import this feeds file (whichever it names).
    AddFeed(String),
}

/// The value a [`KeyAction`] stands for.
pub enum ActionRecord {
    Stay,
    Quit,
    Refresh,
    Open(Seq<char>),
    AddFeed(Seq<char>),
}

impl View for KeyAction {
    type V = ActionRecord;

    open spec fn view(&self) -> ActionRecord {
        match self {
            KeyAction::Stay => ActionRecord::Stay,
            KeyAction::Quit => ActionRecord::Quit,
            KeyAction::Refresh => ActionRecord::Refresh,
            KeyAction::Open(l) => ActionRecord::Open(l@),
            KeyAction::AddFeed(r) => ActionRecord::AddFeed(r@),
        }
    }
}

/// The selection after one step of `delta` in a list of `len` items; a
/// step that is not defined (see [`move_defined`]) leaves it as it is.
pub open spec fn step_index(i: usize, len: nat, delta: int) -> usize {
    if move_defined(i, len, delta) {
        moved_index(i, len, delta)
    } else {
        i
    }
}

/// Moves a selection one step of `delta` (1 or -1) in a list of `len` items.
fn step_selection(index: &mut usize, len: usize, delta: isize)
    requires
        delta == 1 || delta == -1,
    ensures
        *final(index) == step_index(*old(index), len as nat, delta as int),
{
    let signed = signed_of(*index);
    let fits = len == 0 || ((len - 1) as u128 <= isize::MAX as u128 && if delta > 0 {
        signed < isize::MAX
    } else {
        signed > isize::MIN
    });
    if fits {
        move_selection(index, len, delta);
    }
}

/// A move of `delta` in the pane that has the focus: in the feed pane the
/// feed selection moves and the entry selection goes to the top; in the
/// entry pane the entry selection moves among the shown entries.
pub open spec fn move_spec(app: AppRecord, st: TuiRecord, delta: int) -> TuiRecord {
    let order = feed_order(app.feeds);
    match st.focus {
        Focus::Feeds => TuiRecord { feed_index: step_index(st.feed_index, order.len(), delta), entry_index: 0, ..st },
        Focus::Entries => TuiRecord {
            entry_index: step_index(st.entry_index, visible_entries(app.feeds, order, st.feed_index as int, st).len(), delta),
            ..st
        },
    }
}

/// Entering: from the feed pane, into the entry pane at the top; from the
/// entry pane, the selected entry is marked read and its link opened (a
/// notice when it has none, or when no entry is selected).
pub open spec fn enter_spec(app: AppRecord, st: TuiRecord) -> (AppRecord, TuiRecord, ActionRecord) {
    match st.focus {
        Focus::Feeds => (app, TuiRecord { focus: Focus::Entries, entry_index: 0, ..st }, ActionRecord::Stay),
        Focus::Entries => {
            let order = feed_order(app.feeds);
            let vis = visible_entries(app.feeds, order, st.feed_index as int, st);
            if st.feed_index < order.len() && st.entry_index < vis.len() {
                let f = app.feeds[order[st.feed_index as int]];
                let e = f.1.entries[vis[st.entry_index as int]];
                let app2 = AppRecord { feeds: mark_read_spec(app.feeds, f.0, e.key), ..app };
                if trim_spec(e.link).len() == 0 {
                    (app2, TuiRecord { notice: Some("No link to open"@), ..st }, ActionRecord::Stay)
                } else {
                    (app2, st, ActionRecord::Open(e.link))
                }
            } else {
                (app, TuiRecord { notice: Some("No entry selected"@), ..st }, ActionRecord::Stay)
            }
        },
    }
}

/// What a key does: q quits at any time; while the deletion dialog is open
/// or text is being typed, the key goes there; otherwise Esc quits, ← goes
/// back to the feed pane, Tab switches between the panes (the entry
/// selection back at the top), / starts a search, s cycles the sort mode, a starts adding
/// a feed, d asks to delete the selected feed, j/k/↓/↑ move, Enter/→ enter,
/// r refreshes.
pub open spec fn key_spec(app: AppRecord, st: TuiRecord, key: Key) -> (AppRecord, TuiRecord, ActionRecord) {
    if key == Key::Char('q') {
        (app, st, ActionRecord::Quit)
    } else if st.modal_mode == Some(ModalMode::ConfirmDelete) {
        let (a2, s2) = confirm_key_spec(app, st, key);
        (a2, s2, ActionRecord::Stay)
    } else if st.input_mode is Some {
        let (s2, add) = input_key_spec(st, key);
        (app, s2, match add {
            Some(raw) => ActionRecord::AddFeed(raw),
            None => ActionRecord::Stay,
        })
    } else {
        match key {
            Key::Esc => (app, st, ActionRecord::Quit),
            Key::Left => (app, if st.focus == Focus::Entries {
                TuiRecord { focus: Focus::Feeds, entry_index: 0, ..st }
            } else {
                st
            }, ActionRecord::Stay),
            Key::Tab => (app, TuiRecord {
                focus: if st.focus == Focus::Feeds { Focus::Entries } else { Focus::Feeds },
                entry_index: 0,
                ..st
            }, ActionRecord::Stay),
            Key::Char('/') => (app, TuiRecord {
                input_mode: Some(InputMode::Search),
                input_buffer: seq![],
                search_query: seq![],
                entry_index: 0,
                modal_mode: Some(ModalMode::Input),
                ..st
            }, ActionRecord::Stay),
            Key::Char('s') => (app, TuiRecord { sort_mode: next_mode(st.sort_mode), entry_index: 0, ..st }, ActionRecord::Stay),
            Key::Char('a') => (app, TuiRecord {
                input_mode: Some(InputMode::AddFeed),
                input_buffer: seq![],
                modal_mode: Some(ModalMode::Input),
                ..st
            }, ActionRecord::Stay),
            Key::Char('d') => (app, if st.focus == Focus::Feeds { request_delete_spec(app, st) } else { st }, ActionRecord::Stay),
            Key::Char('j') | Key::Down => (app, move_spec(app, st, 1), ActionRecord::Stay),
            Key::Char('k') | Key::Up => (app, move_spec(app, st, -1), ActionRecord::Stay),
            Key::Enter | Key::Right => enter_spec(app, st),
            Key::Char('r') => (app, st, ActionRecord::Refresh),
            _ => (app, st, ActionRecord::Stay),
        }
    }
}

/// Every shown position points into the entry list.
pub proof fn lemma_shown_in_range(entries: Seq<EntryRecord>, m: SortMode, q: Seq<char>, n: nat)
    requires
        n <= entries.len(),
    ensures
        forall|k: int| #[trigger] shown_positions(entries, m, q, n).contains(k) ==> 0 <= k < n,
    decreases n,
{
    if n > 0 {
        lemma_shown_in_range(entries, m, q, (n - 1) as nat);
        let rest = shown_positions(entries, m, q, (n - 1) as nat);
        assert forall|k: int| #[trigger] shown_positions(entries, m, q, n).contains(k) implies 0 <= k < n by {
            if entry_shown(entries[n - 1], m, q) {
                let s = rest.push(n - 1);
                let j = choose|j: int| 0 <= j < s.len() && s[j] == k;
                if j < rest.len() {
                    assert(rest.contains(k));
                }
            } else {
                assert(rest.contains(k));
            }
        }
    }
}

/// Every visible position points into the listed feed's entries.
pub proof fn lemma_visible_in_range(feeds: Seq<(Seq<char>, FeedRecord)>, order: Seq<int>, index: int, st: TuiRecord)
    ensures
        forall|j: int| 0 <= j < visible_entries(feeds, order, index, st).len() ==> 0 <= #[trigger] visible_entries(feeds, order, index, st)[j]
            < listed_entries(feeds, order, index).len(),
{
    let es = listed_entries(feeds, order, index);
    let sh = shown_positions(es, st.sort_mode, query_of(st), es.len());
    lemma_shown_in_range(es, st.sort_mode, query_of(st), es.len());
    crate::order::lemma_stable_sort_items(sh, published_keys(es), st.sort_mode != SortMode::OldFirst);
    assert forall|j: int| 0 <= j < visible_entries(feeds, order, index, st).len() implies 0 <= #[trigger] visible_entries(feeds, order, index, st)[j]
        < es.len() by {
        let v = visible_entries(feeds, order, index, st);
        assert(v.contains(v[j]));
        assert(sh.contains(v[j]));
    }
}

/// Enters the selected feed or opens the selected entry (see [`enter_spec`]).
#[verifier::spinoff_prover]
#[verifier::rlimit(50)]
fn enter_selected(app: &mut AppState, state: &mut TuiState) -> (r: KeyAction)
    requires
        old(app)@.wf(),
    ensures
        (final(app)@, final(state)@, r@) == enter_spec(old(app)@, old(state)@),
        final(app)@.wf(),
{
    if state.focus == Focus::Feeds {
        state.focus = Focus::Entries;
        state.entry_index = 0;
        return KeyAction::Stay;
    }
    let feeds = collect_feeds(app);
    proof {
        lemma_feed_order_in_range(app@.feeds);
    }
    if state.feed_index < feeds.len() {
        let entries = filtered_entries(app, &feeds, state.feed_index, state);
        proof {
            lemma_visible_in_range(app@.feeds, as_ints(feeds@), state.feed_index as int, state@);
        }
        if state.entry_index < entries.len() {
            let f = feeds[state.feed_index];
            assert(f as int == feed_order(app@.feeds)[state.feed_index as int]);
            let ei = entries[state.entry_index];
            assert(ei as int == as_ints(entries@)[state.entry_index as int]);
            let feed_key = app.feeds[f].0.clone();
            let entry_key = app.feeds[f].1.entries[ei].key.clone();
            let link = app.feeds[f].1.entries[ei].link.clone();
            mark_entry_read(app, feed_key.as_str(), entry_key.as_str());
            let trimmed = trim(link.as_str());
            if trimmed.as_str().is_empty() {
                state.notice = Some(String::from_str("No link to open"));
                return KeyAction::Stay;
            }
            return KeyAction::Open(link);
        }
    }
    state.notice = Some(String::from_str("No entry selected"));
    KeyAction::Stay
}

/// Handles one key (see [`key_spec`]) and tells the driver what to do next.
pub fn handle_key(app: &mut AppState, state: &mut TuiState, key: Key) -> (r: KeyAction)
    requires
        old(app)@.wf(),
    ensures
        (final(app)@, final(state)@, r@) == key_spec(old(app)@, old(state)@, key),
        final(app)@.wf(),
{
    if key == Key::Char('q') {
        return KeyAction::Quit;
    }
    if state.modal_mode == Some(ModalMode::ConfirmDelete) {
        handle_confirm_key(app, state, key);
        return KeyAction::Stay;
    }
    if state.input_mode.is_some() {
        return match handle_input_key(state, key) {
            Some(raw) => KeyAction::AddFeed(raw),
            None => KeyAction::Stay,
        };
    }
    match key {
        Key::Esc => KeyAction::Quit,
        Key::Left => {
            if state.focus == Focus::Entries {
                state.focus = Focus::Feeds;
                state.entry_index = 0;
            }
            KeyAction::Stay
        },
        Key::Tab => {
            state.focus = if state.focus == Focus::Feeds { Focus::Entries } else { Focus::Feeds };
            state.entry_index = 0;
            KeyAction::Stay
        },
        Key::Char('/') => {
            state.input_mode = Some(InputMode::Search);
            state.input_buffer = String::new();
            state.search_query = String::new();
            state.entry_index = 0;
            state.modal_mode = Some(ModalMode::Input);
            KeyAction::Stay
        },
        Key::Char('s') => {
            state.sort_mode = state.sort_mode.next();
            state.entry_index = 0;
            KeyAction::Stay
        },
        Key::Char('a') => {
            state.input_mode = Some(InputMode::AddFeed);
            state.input_buffer = String::new();
            state.modal_mode = Some(ModalMode::Input);
            KeyAction::Stay
        },
        Key::Char('d') => {
            if state.focus == Focus::Feeds {
                request_delete_selected_feed(app, state);
            }
            KeyAction::Stay
        },
        Key::Char('j') | Key::Down | Key::Char('k') | Key::Up => {
            let delta: isize = match key {
                Key::Char('j') | Key::Down => 1,
                _ => -1,
            };
            let feeds = collect_feeds(app);
            proof {
                lemma_feed_order_in_range(app@.feeds);
            }
            match state.focus {
                Focus::Feeds => {
                    step_selection(&mut state.feed_index, feeds.len(), delta);
                    state.entry_index = 0;
                },
                Focus::Entries => {
                    let entries = filtered_entries(app, &feeds, state.feed_index, state);
                    step_selection(&mut state.entry_index, entries.len(), delta);
                },
            }
            KeyAction::Stay
        },
        Key::Enter | Key::Right => enter_selected(app, state),
        Key::Char('r') => KeyAction::Refresh,
        _ => KeyAction::Stay,
    }
}

/// The notice after a refresh asked for with r.
pub open spec fn after_refresh_spec(st: TuiRecord, refresh: Result<(), Seq<char>>) -> TuiRecord {
    TuiRecord { notice: Some(refresh_notice(refresh, "Refresh complete"@)), ..st }
}

/// Reports how a refresh asked for with r went.
pub fn after_refresh(state: &mut TuiState, refresh: Result<(), String>)
    ensures
        final(state)@ == after_refresh_spec(old(state)@, outcome_view(refresh)),
{
    state.notice = Some(refresh_message(&refresh, "Refresh complete"));
}

/// The notice after the first refresh: only a failure is reported.
pub open spec fn first_refresh_spec(st: TuiRecord, refresh: Result<(), Seq<char>>) -> TuiRecord {
    match refresh {
        Ok(()) => st,
        Err(e) => TuiRecord { notice: Some("Refresh failed: "@ + e), ..st },
    }
}

/// Reports how the refresh made when the interface starts went.
pub fn after_first_refresh(state: &mut TuiState, refresh: Result<(), String>)
    ensures
        final(state)@ == first_refresh_spec(old(state)@, outcome_view(refresh)),
{
    if let Err(e) = refresh {
        state.notice = Some(crate::text::join2("Refresh failed: ", e.as_str()));
    }
}

/// The notice after trying to open a link.
pub open spec fn after_open_spec(st: TuiRecord, opened: Result<(), Seq<char>>) -> TuiRecord {
    TuiRecord {
        notice: Some(match opened {
            Ok(()) => "Opened in browser"@,
            Err(e) => "Open failed: "@ + e,
        }),
        ..st
    }
}

/// Reports how opening a link went.
pub fn after_open(state: &mut TuiState, opened: Result<(), String>)
    ensures
        final(state)@ == after_open_spec(old(state)@, outcome_view(opened)),
{
    state.notice = Some(match opened {
        Ok(()) => String::from_str("Opened in browser"),
        Err(e) => crate::text::join2("Open failed: ", e.as_str()),
    });
}

/// What must be fetched after an addition before it can be finished.
#[derive(Debug)]
pub enum AddPlan {
    /// One feed was added under this URL.
    Url(String),
    /// Feeds were imported from a file: the first one added and how many.
    Import { first: String, count: usize },
}

/// The value of an addition plan.
pub enum AddPlanRecord {
    Url(Seq<char>),
    Import { first: Seq<char>, count: nat },
}

impl View for AddPlan {
    type V = AddPlanRecord;

    open spec fn view(&self) -> AddPlanRecord {
        match self {
            AddPlan::Url(u) => AddPlanRecord::Url(u@),
            AddPlan::Import { first, count } => AddPlanRecord::Import { first: first@, count: *count as nat },
        }
    }
}

/// Adding the typed text `raw`: when it names a file (`file` is what
/// reading it gave), the file's feeds are imported; otherwise `raw` is
/// added as a feed URL.
pub open spec fn add_spec(
    app: AppRecord,
    st: TuiRecord,
    raw: Seq<char>,
    file: Option<Result<Seq<char>, Seq<char>>>,
) -> (AppRecord, TuiRecord, Option<AddPlanRecord>) {
    match file {
        Some(contents) => {
            let (a, s, r) = import_file_spec(app, st, raw, contents);
            (a, s, match r {
                Some((first, count)) => Some(AddPlanRecord::Import { first, count }),
                None => None,
            })
        },
        None => {
            let (a, s, r) = add_url_spec(app, st, raw);
            (a, s, match r {
                Some(u) => Some(AddPlanRecord::Url(u)),
                None => None,
            })
        },
    }
}

/// The value of what reading the named file gave, if it is a file.
pub open spec fn file_view(file: Option<Result<String, String>>) -> Option<Result<Seq<char>, Seq<char>>> {
    match file {
        Some(c) => Some(crate::config::read_view(c)),
        None => None,
    }
}

/// The value of an optional plan.
pub open spec fn plan_view(p: Option<AddPlan>) -> Option<AddPlanRecord> {
    match p {
        Some(x) => Some(x@),
        None => None,
    }
}

/// Adds the typed text `raw` as a feeds file or a feed URL (see
/// [`add_spec`]); `file_contents` is what reading `raw` gave when it names a
/// file, and nothing when it does not. Returns what must be fetched before
/// [`finish_add`] completes the addition.
pub fn handle_add_feed(
    app: &mut AppState,
    state: &mut TuiState,
    raw: &str,
    file_contents: Option<Result<String, String>>,
) -> (r: Option<AddPlan>)
    requires
        old(app)@.wf(),
    ensures
        (final(app)@, final(state)@, plan_view(r)) == add_spec(old(app)@, old(state)@, raw@, file_view(file_contents)),
        final(app)@.wf(),
{
    match file_contents {
        Some(contents) => match import_feeds_file(app, state, raw, contents) {
            Some((first, count)) => Some(AddPlan::Import { first, count }),
            None => None,
        },
        None => match add_feed_url(app, state, raw) {
            Some(url) => Some(AddPlan::Url(url)),
            None => None,
        },
    }
}

/// Finishing an addition once its feeds were fetched.
pub open spec fn finish_spec(app: AppRecord, st: TuiRecord, refresh: Result<(), Seq<char>>, plan: AddPlanRecord) -> TuiRecord {
    match plan {
        AddPlanRecord::Url(u) => finish_add_spec(app, st, refresh, u),
        AddPlanRecord::Import { first, count } => finish_import_spec(app, st, refresh, first, count),
    }
}

/// Finishes an addition (see [`finish_spec`]).
pub fn finish_add(app: &AppState, state: &mut TuiState, refresh: Result<(), String>, plan: &AddPlan)
    ensures
        final(state)@ == finish_spec(app@, old(state)@, outcome_view(refresh), plan@),
{
    match plan {
        AddPlan::Url(u) => finish_add_feed(app, state, refresh, u.as_str()),
        AddPlan::Import { first, count } => finish_import(app, state, refresh, first.as_str(), *count),
    }
}

} // verus!
