//! The reader's persisted state: feeds, their entries and the keys already seen.

use vstd::prelude::*;
use crate::text::{same_text, string_views};

verus! {

/// The characters of an optional string.
pub open spec fn opt_text(o: Option<String>) -> Option<Seq<char>> {
    match o {
        Some(s) => Some(s@),
        None => None,
    }
}

/// A copy of an optional string.
pub fn copy_opt(o: &Option<String>) -> (r: Option<String>)
    ensures
        opt_text(r) == opt_text(*o),
{
    match o {
        Some(s) => Some(s.clone()),
        None => None,
    }
}

/// A copy of a list of strings.
pub fn copy_strings(v: &Vec<String>) -> (r: Vec<String>)
    ensures
        string_views(r@) == string_views(v@),
{
    let mut r: Vec<String> = Vec::new();
    let mut i: usize = 0;
    while i < v.len()
        invariant
            i <= v.len(),
            string_views(r@) == string_views(v@).take(i as int),
        decreases v.len() - i,
    {
        r.push(v[i].clone());
        assert(string_views(v@).take(i + 1) == string_views(v@).take(i as int).push(v@[i as int]@));
        i += 1;
    }
    assert(string_views(v@).take(v.len() as int) == string_views(v@));
    r
}

/// One entry as the reader shows and stores it.
#[derive(Debug)]
pub struct EntryView {
    pub key: String,
    pub title: String,
    pub link: String,
    pub content: String,
    pub published: Option<String>,
    pub is_read: bool,
}

/// The value an [`EntryView`] stands for.
pub struct EntryRecord {
    pub key: Seq<char>,
    pub title: Seq<char>,
    pub link: Seq<char>,
    pub content: Seq<char>,
    pub published: Option<Seq<char>>,
    pub is_read: bool,
}

impl View for EntryView {
    type V = EntryRecord;

    open spec fn view(&self) -> EntryRecord {
        EntryRecord {
            key: self.key@,
            title: self.title@,
            link: self.link@,
            content: self.content@,
            published: opt_text(self.published),
            is_read: self.is_read,
        }
    }
}

impl EntryView {
    /// A copy of this entry.
    pub fn duplicate(&self) -> (r: EntryView)
        ensures
            r@ == self@,
    {
        EntryView {
            key: self.key.clone(),
            title: self.title.clone(),
            link: self.link.clone(),
            content: self.content.clone(),
            published: copy_opt(&self.published),
            is_read: self.is_read,
        }
    }
}

/// The values of a list of entries.
pub open spec fn entry_records(v: Seq<EntryView>) -> Seq<EntryRecord> {
    v.map_values(|e: EntryView| e@)
}

/// What the reader keeps of one feed.
#[derive(Debug)]
pub struct FeedState {
    pub feed_url: String,
    pub title: Option<String>,
    pub entries: Vec<EntryView>,
    pub seen_keys: Vec<String>,
}

/// The value a [`FeedState`] stands for.
pub struct FeedRecord {
    pub feed_url: Seq<char>,
    pub title: Option<Seq<char>>,
    pub entries: Seq<EntryRecord>,
    pub seen_keys: Seq<Seq<char>>,
}

impl View for FeedState {
    type V = FeedRecord;

    open spec fn view(&self) -> FeedRecord {
        FeedRecord {
            feed_url: self.feed_url@,
            title: opt_text(self.title),
            entries: entry_records(self.entries@),
            seen_keys: string_views(self.seen_keys@),
        }
    }
}

/// A feed that nothing has been fetched for yet.
pub open spec fn fresh_feed(url: Seq<char>) -> FeedRecord {
    FeedRecord { feed_url: url, title: None, entries: seq![], seen_keys: seq![] }
}

impl FeedState {
    /// A feed state for `url` with no title, entries or seen keys.
    pub fn fresh(url: &str) -> (r: FeedState)
        ensures
            r@ == fresh_feed(url@),
    {
        let r = FeedState {
            feed_url: String::from_str(url),
            title: None,
            entries: Vec::new(),
            seen_keys: Vec::new(),
        };
        assert(r@.entries =~= Seq::<EntryRecord>::empty());
        assert(r@.seen_keys =~= Seq::<Seq<char>>::empty());
        r
    }
}

/// The persisted state: a format version and the feeds keyed by URL.
#[derive(Debug)]
pub struct AppState {
    pub version: u32,
    pub feeds: Vec<(String, FeedState)>,
}

/// The value an [`AppState`] stands for.
pub struct AppRecord {
    pub version: u32,
    pub feeds: Seq<(Seq<char>, FeedRecord)>,
}

/// The values of the keyed feed list.
pub open spec fn feed_records(v: Seq<(String, FeedState)>) -> Seq<(Seq<char>, FeedRecord)> {
    v.map_values(|p: (String, FeedState)| (p.0@, p.1@))
}

impl View for AppState {
    type V = AppRecord;

    open spec fn view(&self) -> AppRecord {
        AppRecord { version: self.version, feeds: feed_records(self.feeds@) }
    }
}

/// The state format version this library reads and writes.
pub const STATE_VERSION: u32 = 1;

/// No key occurs twice in the feed list.
pub open spec fn keys_distinct(feeds: Seq<(Seq<char>, FeedRecord)>) -> bool {
    forall|i: int, j: int|
        0 <= i < feeds.len() && 0 <= j < feeds.len() && i != j ==> #[trigger] feeds[i].0 != #[trigger] feeds[j].0
}

/// Whether some feed is stored under `key`.
pub open spec fn has_key(feeds: Seq<(Seq<char>, FeedRecord)>, key: Seq<char>) -> bool {
    exists|i: int| 0 <= i < feeds.len() && #[trigger] feeds[i].0 == key
}

/// The position of the feed stored under `key`.
pub open spec fn key_pos(feeds: Seq<(Seq<char>, FeedRecord)>, key: Seq<char>) -> int {
    choose|i: int| 0 <= i < feeds.len() && #[trigger] feeds[i].0 == key
}

/// The feeds as a map from key to feed.
pub open spec fn feed_map(feeds: Seq<(Seq<char>, FeedRecord)>) -> Map<Seq<char>, FeedRecord> {
    Map::new(|k: Seq<char>| has_key(feeds, k), |k: Seq<char>| feeds[key_pos(feeds, k)].1)
}

impl AppRecord {
    /// Each feed key occurs once.
    pub open spec fn wf(self) -> bool {
        keys_distinct(self.feeds)
    }
}

/// The empty state of the current version.
pub open spec fn empty_state() -> AppRecord {
    AppRecord { version: STATE_VERSION, feeds: seq![] }
}

impl Default for AppState {
    fn default() -> (r: AppState)
        ensures
            r@ == empty_state(),
    {
        let r = AppState { version: STATE_VERSION, feeds: Vec::new() };
        assert(r@.feeds =~= Seq::<(Seq<char>, FeedRecord)>::empty());
        r
    }
}

impl AppState {
    /// The position of the feed stored under `key`, if any.
    pub fn find_feed(&self, key: &str) -> (r: Option<usize>)
        requires
            self@.wf(),
        ensures
            r is Some <==> has_key(self@.feeds, key@),
            r matches Some(i) ==> i < self.feeds.len() && self@.feeds[i as int].0 == key@ && i == key_pos(
                self@.feeds,
                key@,
            ),
    {
        let mut i: usize = 0;
        while i < self.feeds.len()
            invariant
                i <= self.feeds.len(),
                self@.wf(),
                forall|j: int| 0 <= j < i ==> #[trigger] self@.feeds[j].0 != key@,
            decreases self.feeds.len() - i,
        {
            if same_text(self.feeds[i].0.as_str(), key) {
                assert(self@.feeds[i as int].0 == key@);
                let ghost k = key_pos(self@.feeds, key@);
                assert(self@.feeds[k].0 == key@);
                return Some(i);
            }
            i += 1;
        }
        None
    }
}

} // verus!
