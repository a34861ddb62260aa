//! Folding a freshly fetched feed into the stored state: remembering which
//! entry keys were seen (bounded by a cap, oldest forgotten first), adding
//! the entries not seen before, and keeping each feed's record in shape.

use vstd::prelude::*;
use crate::feed::{
    FeedDocument, FeedDocumentRecord, FeedEntry, FeedEntryRecord, entry_key, entry_key_spec,
    entry_link, entry_link_spec, entry_title, entry_title_spec, feed_entry_records, text_of,
    text_or_empty,
};
use crate::model::{
    AppState, EntryRecord, EntryView, FeedRecord, FeedState, entry_records, fresh_feed,
    has_key, key_pos, opt_text,
};
use crate::text::{same_text, string_views};

verus! {

/// The keys remembered for one feed: the set looked up, and the order in
/// which they were remembered (oldest first).
pub struct Seen {
    pub set: Set<Seq<char>>,
    pub order: Seq<Seq<char>>,
}

/// Forgets the oldest remembered keys until at most `cap` are left.
pub open spec fn trim_seen(s: Seen, cap: nat) -> Seen
    decreases s.order.len(),
{
    if s.order.len() > cap {
        trim_seen(Seen { set: s.set.remove(s.order[0]), order: s.order.drop_first() }, cap)
    } else {
        s
    }
}

/// Remembers `key` unless it is already in the set, then trims to `cap`.
pub open spec fn remember_spec(s: Seen, key: Seq<char>, cap: nat) -> Seen {
    if s.set.contains(key) {
        s
    } else {
        trim_seen(Seen { set: s.set.insert(key), order: s.order.push(key) }, cap)
    }
}

/// The seen state a feed starts an update with: its stored keys, trimmed.
pub open spec fn initial_seen(keys: Seq<Seq<char>>, cap: nat) -> Seen {
    trim_seen(Seen { set: keys.to_set(), order: keys }, cap)
}

/// Removing the element at `j` from a sequence without duplicates removes
/// exactly that element from its set.
pub(crate) proof fn lemma_remove_to_set(s: Seq<Seq<char>>, j: int)
    requires
        s.no_duplicates(),
        0 <= j < s.len(),
    ensures
        s.remove(j).to_set() == s.to_set().remove(s[j]),
        s.remove(j).no_duplicates(),
{
    let r = s.remove(j);
    assert forall|x: Seq<char>| r.to_set().contains(x) <==> s.to_set().remove(s[j]).contains(x) by {
        if r.to_set().contains(x) {
            let k = choose|k: int| 0 <= k < r.len() && r[k] == x;
            if k < j {
                assert(s[k] == x);
            } else {
                assert(s[k + 1] == x);
            }
        }
        if s.to_set().remove(s[j]).contains(x) {
            let k = choose|k: int| 0 <= k < s.len() && s[k] == x;
            assert(k != j);
            if k < j {
                assert(r[k] == x);
            } else {
                assert(r[k - 1] == x);
            }
        }
    }
    assert(r.to_set() =~= s.to_set().remove(s[j]));
    assert forall|a: int, b: int| 0 <= a < r.len() && 0 <= b < r.len() && a != b implies r[a] != r[b] by {
        let a2 = if a < j { a } else { a + 1 };
        let b2 = if b < j { b } else { b + 1 };
        assert(r[a] == s[a2] && r[b] == s[b2]);
    }
}

/// Pushing a new element onto a sequence adds it to its set.
pub(crate) proof fn lemma_push_to_set(s: Seq<Seq<char>>, x: Seq<char>)
    ensures
        s.push(x).to_set() == s.to_set().insert(x),
        s.no_duplicates() && !s.contains(x) ==> s.push(x).no_duplicates(),
{
    let r = s.push(x);
    assert forall|y: Seq<char>| r.to_set().contains(y) <==> s.to_set().insert(x).contains(y) by {
        if r.to_set().contains(y) {
            let k = choose|k: int| 0 <= k < r.len() && r[k] == y;
            if k < s.len() {
                assert(s[k] == y);
            }
        }
        if s.to_set().insert(x).contains(y) {
            if y == x {
                assert(r[s.len() as int] == y);
            } else {
                let k = choose|k: int| 0 <= k < s.len() && s[k] == y;
                assert(r[k] == y);
            }
        }
    }
    assert(r.to_set() =~= s.to_set().insert(x));
    if s.no_duplicates() && !s.contains(x) {
        assert forall|a: int, b: int| 0 <= a < r.len() && 0 <= b < r.len() && a != b implies r[a] != r[b] by {
            if a == s.len() {
                assert(s[b] == r[b]);
            } else if b == s.len() {
                assert(s[a] == r[a]);
            }
        }
    }
}

/// Whether `key` is among `keys`.
pub fn contains_key(keys: &Vec<String>, key: &str) -> (r: bool)
    ensures
        r == string_views(keys@).contains(key@),
{
    let mut i: usize = 0;
    while i < keys.len()
        invariant
            i <= keys.len(),
            forall|j: int| 0 <= j < i ==> string_views(keys@)[j] != key@,
        decreases keys.len() - i,
    {
        if same_text(keys[i].as_str(), key) {
            assert(string_views(keys@)[i as int] == key@);
            return true;
        }
        i += 1;
    }
    false
}

/// Adds `key` to a duplicate-free list used as a set; tells whether it was new.
fn set_insert(keys: &mut Vec<String>, key: String) -> (added: bool)
    requires
        string_views(old(keys)@).no_duplicates(),
    ensures
        added == !string_views(old(keys)@).contains(key@),
        string_views(final(keys)@).to_set() == string_views(old(keys)@).to_set().insert(key@),
        string_views(final(keys)@).no_duplicates(),
{
    if contains_key(keys, key.as_str()) {
        assert(string_views(keys@).to_set().insert(key@) =~= string_views(keys@).to_set());
        false
    } else {
        let ghost prev = string_views(keys@);
        keys.push(key);
        assert(string_views(keys@) == prev.push(key@));
        proof {
            lemma_push_to_set(prev, key@);
        }
        true
    }
}

/// Removes `key` from a duplicate-free list used as a set.
fn set_remove(keys: &mut Vec<String>, key: &str)
    requires
        string_views(old(keys)@).no_duplicates(),
    ensures
        string_views(final(keys)@).to_set() == string_views(old(keys)@).to_set().remove(key@),
        string_views(final(keys)@).no_duplicates(),
{
    let mut i: usize = 0;
    while i < keys.len()
        invariant
            i <= keys.len(),
            keys@ == old(keys)@,
            string_views(keys@).no_duplicates(),
            forall|j: int| 0 <= j < i ==> string_views(keys@)[j] != key@,
        decreases keys.len() - i,
    {
        if same_text(keys[i].as_str(), key) {
            let ghost prev = string_views(keys@);
            keys.remove(i);
            assert(string_views(keys@) == prev.remove(i as int));
            proof {
                lemma_remove_to_set(prev, i as int);
            }
            return;
        }
        i += 1;
    }
    assert(!string_views(keys@).to_set().contains(key@));
    assert(string_views(keys@).to_set().remove(key@) =~= string_views(keys@).to_set());
}

/// The seen state held by a key set and a key order.
pub open spec fn seen_of(set: Seq<String>, order: Seq<String>) -> Seen {
    Seen { set: string_views(set).to_set(), order: string_views(order) }
}

/// Forgets the oldest keys until at most `cap` remain.
fn trim_keys(seen: &mut Vec<String>, seen_order: &mut Vec<String>, cap: usize)
    requires
        string_views(old(seen)@).no_duplicates(),
    ensures
        seen_of(final(seen)@, final(seen_order)@) == trim_seen(seen_of(old(seen)@, old(seen_order)@), cap as nat),
        string_views(final(seen)@).no_duplicates(),
{
    while seen_order.len() > cap
        invariant
            string_views(seen@).no_duplicates(),
            trim_seen(seen_of(old(seen)@, old(seen_order)@), cap as nat) == trim_seen(
                seen_of(seen@, seen_order@),
                cap as nat,
            ),
        decreases seen_order.len(),
    {
        let ghost before = seen_of(seen@, seen_order@);
        let oldest = seen_order.remove(0);
        assert(string_views(seen_order@) == before.order.drop_first());
        set_remove(seen, oldest.as_str());
        assert(seen_of(seen@, seen_order@) == Seen {
            set: before.set.remove(before.order[0]),
            order: before.order.drop_first(),
        });
    }
}

/// Remembers `key` in the seen set and order unless it is already known,
/// then forgets the oldest keys beyond `seen_cap`.
pub fn remember_entry(key: String, seen: &mut Vec<String>, seen_order: &mut Vec<String>, seen_cap: usize)
    requires
        string_views(old(seen)@).no_duplicates(),
    ensures
        seen_of(final(seen)@, final(seen_order)@) == remember_spec(
            seen_of(old(seen)@, old(seen_order)@),
            key@,
            seen_cap as nat,
        ),
        string_views(final(seen)@).no_duplicates(),
{
    let ghost k = key@;
    let key_copy = key.clone();
    if set_insert(seen, key) {
        let ghost prev = string_views(seen_order@);
        seen_order.push(key_copy);
        assert(string_views(seen_order@) == prev.push(k));
        trim_keys(seen, seen_order, seen_cap);
    } else {
        assert(string_views(old(seen)@).to_set().contains(k));
        assert(string_views(old(seen)@).to_set().insert(k) =~= string_views(old(seen)@).to_set());
        assert(seen_of(seen@, seen_order@) == seen_of(old(seen)@, old(seen_order)@));
    }
}

/// The scan of a feed's entries from position `i` on: an entry whose key is
/// already in the set is passed over; any other is remembered and picked,
/// and the scan stops once `max` entries are picked (after the first pick
/// when `max` is zero).
pub open spec fn scan_spec(
    entries: Seq<FeedEntryRecord>,
    i: int,
    s: Seen,
    cap: nat,
    max: nat,
    picked: Seq<int>,
) -> (Seen, Seq<int>)
    decreases entries.len() - i,
{
    if i < 0 || i >= entries.len() {
        (s, picked)
    } else {
        let key = entry_key_spec(entries[i], i as nat);
        if s.set.contains(key) {
            scan_spec(entries, i + 1, s, cap, max, picked)
        } else {
            let s2 = remember_spec(s, key, cap);
            let p2 = picked.push(i);
            if p2.len() >= max {
                (s2, p2)
            } else {
                scan_spec(entries, i + 1, s2, cap, max, p2)
            }
        }
    }
}

/// The scan of a whole document against what a feed has seen.
pub open spec fn feed_scan(fs: FeedRecord, doc: FeedDocumentRecord, cap: nat, max: nat) -> (Seen, Seq<int>) {
    scan_spec(doc.entries, 0, initial_seen(fs.seen_keys, cap), cap, max, seq![])
}

/// How the `index`-th entry of a document is shown and stored: unread.
pub open spec fn entry_view_spec(e: FeedEntryRecord, index: int) -> EntryRecord {
    EntryRecord {
        key: entry_key_spec(e, index as nat),
        title: entry_title_spec(e),
        link: entry_link_spec(e),
        content: text_or_empty(e.summary),
        published: e.published,
        is_read: false,
    }
}

/// The stored views of the picked entries, in document order.
pub open spec fn picked_views(doc: FeedDocumentRecord, picked: Seq<int>) -> Seq<EntryRecord> {
    picked.map_values(|i: int| entry_view_spec(doc.entries[i], i))
}

/// The picked entries themselves.
pub open spec fn picked_entries(doc: FeedDocumentRecord, picked: Seq<int>) -> Seq<FeedEntryRecord> {
    picked.map_values(|i: int| doc.entries[i])
}

/// A feed after an update with `doc`: the new entries come first, the
/// title is the document's, and the seen keys are those the scan left.
pub open spec fn updated_feed(fs: FeedRecord, doc: FeedDocumentRecord, cap: nat, max: nat) -> FeedRecord {
    let (s, picked) = feed_scan(fs, doc, cap, max);
    FeedRecord {
        feed_url: fs.feed_url,
        title: doc.title,
        entries: picked_views(doc, picked) + fs.entries,
        seen_keys: s.order,
    }
}

/// Whether an update with `doc` changes the feed: some entry was added or
/// the title differs.
pub open spec fn update_changes(fs: FeedRecord, doc: FeedDocumentRecord, cap: nat, max: nat) -> bool {
    feed_scan(fs, doc, cap, max).1.len() > 0 || fs.title != doc.title
}

/// The name shown for a feed after an update: the document's title, else the feed URL.
pub open spec fn update_label(fs: FeedRecord, doc: FeedDocumentRecord) -> Seq<char> {
    match doc.title {
        Some(t) => t,
        None => fs.feed_url,
    }
}

/// Whether two optional strings hold the same text.
pub fn same_opt_text(a: &Option<String>, b: &Option<String>) -> (r: bool)
    ensures
        r == (opt_text(*a) == opt_text(*b)),
{
    match (a, b) {
        (Some(x), Some(y)) => same_text(x.as_str(), y.as_str()),
        (None, None) => true,
        _ => false,
    }
}

/// A duplicate-free list holding exactly the elements of `keys`.
fn key_set(keys: &Vec<String>) -> (set: Vec<String>)
    ensures
        string_views(set@).to_set() == string_views(keys@).to_set(),
        string_views(set@).no_duplicates(),
{
    let mut set: Vec<String> = Vec::new();
    let mut i: usize = 0;
    assert(string_views(keys@).take(0).to_set() =~= string_views(set@).to_set());
    while i < keys.len()
        invariant
            i <= keys.len(),
            string_views(set@).no_duplicates(),
            string_views(set@).to_set() == string_views(keys@).take(i as int).to_set(),
        decreases keys.len() - i,
    {
        set_insert(&mut set, keys[i].clone());
        proof {
            assert(string_views(keys@).take(i + 1) == string_views(keys@).take(i as int).push(keys@[i as int]@));
            lemma_push_to_set(string_views(keys@).take(i as int), keys@[i as int]@);
        }
        i += 1;
    }
    assert(string_views(keys@).take(keys.len() as int) == string_views(keys@));
    set
}

/// The stored view of `entry`, the `index`-th entry of its document.
pub fn entry_view_of(entry: &FeedEntry, index: usize) -> (r: EntryView)
    ensures
        r@ == entry_view_spec(entry@, index as int),
{
    EntryView {
        key: entry_key(entry, index),
        title: entry_title(entry),
        link: entry_link(entry),
        content: text_of(&entry.summary),
        published: crate::model::copy_opt(&entry.published),
        is_read: false,
    }
}

/// Folds a fetched document into a feed's state. Entries whose key the feed
/// has already seen are passed over; the others, up to `max_items` of them
/// (at least one), are remembered and put in front of the stored entries,
/// unread and in document order. The seen keys are kept to the newest
/// `seen_cap`. Returns the new entries, whether the feed changed, and the
/// name to show for the feed.
pub fn apply_feed_update(
    feed_state: &mut FeedState,
    feed: &FeedDocument,
    seen_cap: usize,
    max_items: usize,
) -> (r: (Vec<FeedEntry>, bool, String))
    ensures
        final(feed_state)@ == updated_feed(old(feed_state)@, feed@, seen_cap as nat, max_items as nat),
        feed_entry_records(r.0@) == picked_entries(
            feed@,
            feed_scan(old(feed_state)@, feed@, seen_cap as nat, max_items as nat).1,
        ),
        r.1 == update_changes(old(feed_state)@, feed@, seen_cap as nat, max_items as nat),
        r.2@ == update_label(old(feed_state)@, feed@),
{
    let ghost fs0 = feed_state@;
    let ghost doc = feed@;
    let ghost target = feed_scan(fs0, doc, seen_cap as nat, max_items as nat);
    let mut seen = key_set(&feed_state.seen_keys);
    let mut seen_order = crate::model::copy_strings(&feed_state.seen_keys);
    assert(seen_of(seen@, seen_order@) == Seen { set: fs0.seen_keys.to_set(), order: fs0.seen_keys });
    trim_keys(&mut seen, &mut seen_order, seen_cap);
    let mut new_entries: Vec<FeedEntry> = Vec::new();
    let mut new_views: Vec<EntryView> = Vec::new();
    let ghost mut picked: Seq<int> = seq![];
    let mut index: usize = 0;
    let mut done = false;
    while index < feed.entries.len() && !done
        invariant
            doc == feed@,
            index <= feed.entries.len(),
            string_views(seen@).no_duplicates(),
            forall|j: int| 0 <= j < picked.len() ==> 0 <= #[trigger] picked[j] < feed.entries.len(),
            feed_entry_records(new_entries@) == picked_entries(doc, picked),
            entry_records(new_views@) == picked_views(doc, picked),
            target == if done {
                (seen_of(seen@, seen_order@), picked)
            } else {
                scan_spec(doc.entries, index as int, seen_of(seen@, seen_order@), seen_cap as nat, max_items as nat, picked)
            },
        decreases feed.entries.len() - index, if done { 0int } else { 1int },
    {
        let entry = &feed.entries[index];
        assert(entry@ == doc.entries[index as int]);
        let key = entry_key(entry, index);
        if contains_key(&seen, key.as_str()) {
            index += 1;
        } else {
            let ghost before = seen_of(seen@, seen_order@);
            remember_entry(key, &mut seen, &mut seen_order, seen_cap);
            let ghost prev_entries = new_entries@;
            let ghost prev_views = new_views@;
            new_entries.push(entry.duplicate());
            new_views.push(entry_view_of(entry, index));
            proof {
                let p0 = picked;
                picked = picked.push(index as int);
                assert(feed_entry_records(new_entries@) =~= picked_entries(doc, picked)) by {
                    assert(feed_entry_records(new_entries@) == feed_entry_records(prev_entries).push(entry@));
                    assert(picked_entries(doc, picked) == picked_entries(doc, p0).push(doc.entries[index as int]));
                }
                assert(entry_records(new_views@) =~= picked_views(doc, picked)) by {
                    assert(entry_records(new_views@) == entry_records(prev_views).push(entry_view_spec(entry@, index as int)));
                    assert(picked_views(doc, picked) == picked_views(doc, p0).push(entry_view_spec(doc.entries[index as int], index as int)));
                }
            }
            if new_entries.len() >= max_items {
                done = true;
            } else {
                index += 1;
            }
        }
    }
    let mut changed = false;
    let ghost picked_final = picked;
    if new_views.len() > 0 {
        new_views.append(&mut feed_state.entries);
        feed_state.entries = new_views;
        changed = true;
    } else {
        assert(entry_records(new_views@) + fs0.entries =~= fs0.entries);
    }
    let next_title = crate::model::copy_opt(&feed.title);
    if !same_opt_text(&feed_state.title, &next_title) {
        feed_state.title = next_title;
        changed = true;
    }
    feed_state.seen_keys = seen_order;
    let label = match &feed.title {
        Some(t) => t.clone(),
        None => feed_state.feed_url.clone(),
    };
    proof {
        assert(entry_records(feed_state.entries@) == picked_views(doc, picked_final) + fs0.entries);
    }
    (new_entries, changed, label)
}

/// The keys of a list of stored entries.
pub open spec fn entry_keys(entries: Seq<EntryRecord>) -> Seq<Seq<char>> {
    entries.map_values(|e: EntryRecord| e.key)
}

/// The newest `cap` keys of `keys`.
pub open spec fn newest_keys(keys: Seq<Seq<char>>, cap: nat) -> Seq<Seq<char>> {
    if keys.len() > cap {
        keys.skip(keys.len() - cap)
    } else {
        keys
    }
}

/// A stored feed put in shape for `url`: its URL set to `url`, its seen keys
/// taken from its entries when it has entries but no seen keys, and only
/// the newest `cap` seen keys kept.
pub open spec fn normalize_feed(fs: FeedRecord, url: Seq<char>, cap: nat) -> FeedRecord {
    let keys = if fs.seen_keys.len() == 0 && fs.entries.len() > 0 {
        entry_keys(fs.entries)
    } else {
        fs.seen_keys
    };
    FeedRecord { feed_url: url, title: fs.title, entries: fs.entries, seen_keys: newest_keys(keys, cap) }
}

/// The feed list once `url` is sure to have a feed in shape: the feed
/// stored under `url` is normalized in place, or a fresh one is added at
/// the end.
pub open spec fn ensure_spec(feeds: Seq<(Seq<char>, FeedRecord)>, url: Seq<char>, cap: nat) -> Seq<(Seq<char>, FeedRecord)> {
    if has_key(feeds, url) {
        let i = key_pos(feeds, url);
        feeds.update(i, (url, normalize_feed(feeds[i].1, url, cap)))
    } else {
        feeds.push((url, normalize_feed(fresh_feed(url), url, cap)))
    }
}

/// Puts one stored feed in shape for `url` (see [`normalize_feed`]).
fn normalize_feed_state(fs: &mut FeedState, url: &str, cap: usize)
    ensures
        final(fs)@ == normalize_feed(old(fs)@, url@, cap as nat),
{
    if !same_text(fs.feed_url.as_str(), url) {
        fs.feed_url = String::from_str(url);
    }
    if fs.seen_keys.len() == 0 && fs.entries.len() > 0 {
        let mut keys: Vec<String> = Vec::new();
        let mut i: usize = 0;
        while i < fs.entries.len()
            invariant
                i <= fs.entries.len(),
                string_views(keys@) == entry_keys(entry_records(fs.entries@)).take(i as int),
            decreases fs.entries.len() - i,
        {
            keys.push(fs.entries[i].key.clone());
            assert(entry_keys(entry_records(fs.entries@)).take(i + 1) == entry_keys(entry_records(fs.entries@)).take(i as int).push(fs.entries@[i as int].key@));
            i += 1;
        }
        assert(entry_keys(entry_records(fs.entries@)).take(fs.entries.len() as int) == entry_keys(entry_records(fs.entries@)));
        fs.seen_keys = keys;
    }
    if fs.seen_keys.len() > cap {
        let excess = fs.seen_keys.len() - cap;
        let ghost before = string_views(fs.seen_keys@);
        let kept = fs.seen_keys.split_off(excess);
        fs.seen_keys = kept;
        assert(string_views(fs.seen_keys@) =~= before.skip(excess as int));
    }
}

/// Makes sure `app` has a feed stored under `feed_url` and puts it in shape
/// (see [`ensure_spec`]).
pub fn ensure_feed_state(app: &mut AppState, feed_url: &str, seen_cap: usize)
    requires
        old(app)@.wf(),
    ensures
        final(app)@.version == old(app)@.version,
        final(app)@.feeds == ensure_spec(old(app)@.feeds, feed_url@, seen_cap as nat),
        final(app)@.wf(),
{
    let ghost feeds0 = app@.feeds;
    let found = app.find_feed(feed_url);
    let i = match found {
        Some(i) => i,
        None => {
            app.feeds.push((String::from_str(feed_url), FeedState::fresh(feed_url)));
            assert(app@.feeds == feeds0.push((feed_url@, fresh_feed(feed_url@))));
            app.feeds.len() - 1
        },
    };
    let ghost feeds1 = app@.feeds;
    let (key, mut fs) = app.feeds.remove(i);
    normalize_feed_state(&mut fs, feed_url, seen_cap);
    let ghost v = (key@, fs@);
    app.feeds.insert(i, (key, fs));
    assert(app@.feeds =~= feeds1.update(i as int, v));
    assert(key@ == feed_url@);
    assert(app@.feeds == ensure_spec(feeds0, feed_url@, seen_cap as nat));
    assert(app@.wf()) by {
        assert forall|a: int, b: int| 0 <= a < app@.feeds.len() && 0 <= b < app@.feeds.len() && a != b implies #[trigger] app@.feeds[a].0 != #[trigger] app@.feeds[b].0 by {
            if found is None {
                if a == i && b < feeds0.len() {
                    assert(feeds0[b].0 == app@.feeds[b].0);
                } else if b == i && a < feeds0.len() {
                    assert(feeds0[a].0 == app@.feeds[a].0);
                } else {
                    assert(feeds0[a].0 != feeds0[b].0);
                }
            } else {
                assert(feeds0[a].0 != feeds0[b].0);
            }
        }
    }
}

/// After [`ensure_spec`] a feed is stored under `url`.
pub proof fn lemma_ensure_has_key(feeds: Seq<(Seq<char>, FeedRecord)>, url: Seq<char>, cap: nat)
    ensures
        has_key(ensure_spec(feeds, url, cap), url),
{
    let f1 = ensure_spec(feeds, url, cap);
    if has_key(feeds, url) {
        let i = key_pos(feeds, url);
        assert(f1[i].0 == url);
    } else {
        assert(f1[feeds.len() as int].0 == url);
    }
}

/// The feed list after a fetched document for `url` is folded in: the feed
/// is made sure of and put in shape, then updated with the document.
pub open spec fn refreshed_feeds(
    feeds: Seq<(Seq<char>, FeedRecord)>,
    url: Seq<char>,
    doc: FeedDocumentRecord,
    cap: nat,
    max: nat,
) -> Seq<(Seq<char>, FeedRecord)> {
    let f1 = ensure_spec(feeds, url, cap);
    let i = key_pos(f1, url);
    f1.update(i, (url, updated_feed(f1[i].1, doc, cap, max)))
}

/// Whether folding the document in changes the feed.
pub open spec fn refresh_changes(
    feeds: Seq<(Seq<char>, FeedRecord)>,
    url: Seq<char>,
    doc: FeedDocumentRecord,
    cap: nat,
    max: nat,
) -> bool {
    let f1 = ensure_spec(feeds, url, cap);
    update_changes(f1[key_pos(f1, url)].1, doc, cap, max)
}

/// What one round of refreshing every feed reports: whether any feed
/// changed, and the last error met.
#[derive(Debug)]
pub struct RefreshOutcome {
    pub changed: bool,
    pub error: Option<String>,
}

impl RefreshOutcome {
    /// Nothing changed and no error yet.
    pub fn new() -> (r: RefreshOutcome)
        ensures
            !r.changed,
            r.error is None,
    {
        RefreshOutcome { changed: false, error: None }
    }
}

/// Folds the outcome of fetching and parsing one feed into the state: a
/// document is folded into the feed stored under `feed_url` (which is made
/// sure of first) and marks the round as changed when the feed changed; an
/// error leaves the state as it was and becomes the round's last error.
pub fn apply_parsed(
    app: &mut AppState,
    feed_url: &str,
    parsed: Result<FeedDocument, String>,
    seen_cap: usize,
    max_items: usize,
    outcome: &mut RefreshOutcome,
)
    requires
        old(app)@.wf(),
    ensures
        final(app)@.wf(),
        final(app)@.version == old(app)@.version,
        match parsed {
            Ok(doc) => {
                &&& final(app)@.feeds == refreshed_feeds(old(app)@.feeds, feed_url@, doc@, seen_cap as nat, max_items as nat)
                &&& final(outcome).changed == (old(outcome).changed || refresh_changes(old(app)@.feeds, feed_url@, doc@, seen_cap as nat, max_items as nat))
                &&& opt_text(final(outcome).error) == opt_text(old(outcome).error)
            },
            Err(e) => {
                &&& final(app)@ == old(app)@
                &&& final(outcome).changed == old(outcome).changed
                &&& opt_text(final(outcome).error) == Some(e@)
            },
        },
{
    match parsed {
        Ok(doc) => {
            let ghost feeds0 = app@.feeds;
            ensure_feed_state(app, feed_url, seen_cap);
            proof {
                lemma_ensure_has_key(feeds0, feed_url@, seen_cap as nat);
            }
            let ghost feeds1 = app@.feeds;
            let i = app.find_feed(feed_url).unwrap();
            let (key, mut fs) = app.feeds.remove(i);
            let (_new_entries, updated, _label) = apply_feed_update(&mut fs, &doc, seen_cap, max_items);
            let ghost v = (key@, fs@);
            app.feeds.insert(i, (key, fs));
            assert(app@.feeds =~= feeds1.update(i as int, v));
            if updated {
                outcome.changed = true;
            }
            assert(app@.wf()) by {
                assert forall|a: int, b: int| 0 <= a < app@.feeds.len() && 0 <= b < app@.feeds.len() && a != b implies #[trigger] app@.feeds[a].0 != #[trigger] app@.feeds[b].0 by {
                    assert(feeds1[a].0 == app@.feeds[a].0);
                    assert(feeds1[b].0 == app@.feeds[b].0);
                }
            }
        },
        Err(e) => {
            outcome.error = Some(e);
        },
    }
}

/// Folds the raw outcome of fetching one feed into the state: fetched bytes
/// are parsed as a feed document, and the document, or the fetch or parse
/// error, is folded in as [`apply_parsed`] does. Bytes that the feed parser
/// cannot safely be handed (see [`crate::date_guard`]) count as a parse
/// error.
pub fn record_fetch(
    app: &mut AppState,
    feed_url: &str,
    fetched: Result<Vec<u8>, String>,
    seen_cap: usize,
    max_items: usize,
    outcome: &mut RefreshOutcome,
)
    requires
        old(app)@.wf(),
    ensures
        final(app)@.wf(),
        final(app)@.version == old(app)@.version,
        match crate::feed::fetched_doc_spec(crate::feed::fetched_view(fetched)) {
            Ok(doc) => {
                &&& final(app)@.feeds == refreshed_feeds(old(app)@.feeds, feed_url@, doc, seen_cap as nat, max_items as nat)
                &&& final(outcome).changed == (old(outcome).changed || refresh_changes(old(app)@.feeds, feed_url@, doc, seen_cap as nat, max_items as nat))
                &&& opt_text(final(outcome).error) == opt_text(old(outcome).error)
            },
            Err(m) => {
                &&& final(app)@ == old(app)@
                &&& final(outcome).changed == old(outcome).changed
                &&& opt_text(final(outcome).error) == Some(m)
            },
        },
{
    let parsed = crate::feed::parse_fetched(fetched);
    apply_parsed(app, feed_url, parsed, seen_cap, max_items, outcome);
}

} // verus!
