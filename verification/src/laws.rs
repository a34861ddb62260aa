//! Properties that hold across calls: the seen-key memory stays bounded and
//! duplicate-free, a feed already seen adds nothing, fetching the same feed
//! twice adds its entries once, and the feed list the options give holds
//! each feed once, all of them URLs.

use vstd::prelude::*;
use crate::config::{
    ArgsRecord, ResolveFailure, dedup_append, first_invalid, parse_lines_spec, read_feeds_file_spec,
    resolve_spec, url_parses, default_feeds_spec, feeds_file_spec,
};
use crate::feed::{FeedDocumentRecord, FeedEntryRecord, entry_key_spec};
use crate::model::{FeedRecord, feed_map, fresh_feed, has_key, key_pos, keys_distinct};
use crate::update::{
    newest_keys,
    Seen, ensure_spec, feed_scan, initial_seen, remember_spec, scan_spec, trim_seen, update_changes,
    updated_feed,
};

verus! {

/// The seen set is exactly the keys of the order, each once.
pub open spec fn seen_consistent(s: Seen) -> bool {
    s.order.no_duplicates() && s.set == s.order.to_set()
}

/// Trimming keeps the newest keys, at most `cap` of them, and consistency.
pub proof fn lemma_trim_seen(s: Seen, cap: nat)
    ensures
        trim_seen(s, cap).order == (if s.order.len() > cap { s.order.skip(s.order.len() - cap) } else { s.order }),
        seen_consistent(s) ==> seen_consistent(trim_seen(s, cap)),
        s.order.len() <= cap ==> trim_seen(s, cap) == s,
    decreases s.order.len(),
{
    if s.order.len() > cap {
        let t = Seen { set: s.set.remove(s.order[0]), order: s.order.drop_first() };
        lemma_trim_seen(t, cap);
        assert(t.order.skip(t.order.len() - cap) =~= s.order.skip(s.order.len() - cap)) by {
            if t.order.len() > cap {
            }
        }
        if t.order.len() <= cap {
            assert(t.order =~= s.order.skip(s.order.len() - cap));
        }
        if seen_consistent(s) {
            assert(s.order.remove(0) =~= s.order.drop_first());
            crate::update::lemma_remove_to_set(s.order, 0);
        }
    }
}

/// Remembering a key keeps consistency and never grows the order beyond
/// `cap` when it was within it.
pub proof fn lemma_remember(s: Seen, key: Seq<char>, cap: nat)
    ensures
        seen_consistent(s) ==> seen_consistent(remember_spec(s, key, cap)),
        s.order.len() <= cap ==> remember_spec(s, key, cap).order.len() <= cap,
        remember_spec(s, key, cap).order.len() <= s.order.len() + 1,
        s.order.len() + 1 <= cap && seen_consistent(s) ==> remember_spec(s, key, cap).set == s.set.insert(key)
            && remember_spec(s, key, cap).order.len() <= s.order.len() + 1,
{
    if !s.set.contains(key) {
        let p = Seen { set: s.set.insert(key), order: s.order.push(key) };
        lemma_trim_seen(p, cap);
        if seen_consistent(s) {
            crate::update::lemma_push_to_set(s.order, key);
            assert(!s.order.contains(key));
        }
    } else {
        if seen_consistent(s) {
            assert(s.set.insert(key) =~= s.set);
        }
    }
}

/// The scan keeps consistency and the order within `cap`.
pub proof fn lemma_scan_bounded(
    entries: Seq<FeedEntryRecord>,
    i: int,
    s: Seen,
    cap: nat,
    max: nat,
    picked: Seq<int>,
)
    requires
        s.order.len() <= cap,
    ensures
        scan_spec(entries, i, s, cap, max, picked).0.order.len() <= cap,
        seen_consistent(s) ==> seen_consistent(scan_spec(entries, i, s, cap, max, picked).0),
    decreases entries.len() - i,
{
    if !(i < 0 || i >= entries.len()) {
        let key = entry_key_spec(entries[i], i as nat);
        if s.set.contains(key) {
            lemma_scan_bounded(entries, i + 1, s, cap, max, picked);
        } else {
            lemma_remember(s, key, cap);
            let s2 = remember_spec(s, key, cap);
            if picked.push(i).len() < max {
                lemma_scan_bounded(entries, i + 1, s2, cap, max, picked.push(i));
            }
        }
    }
}

/// The seen keys of a feed never exceed the cap after an update, and stay
/// free of duplicates when they were.
pub proof fn law_update_bounds_seen_keys(fs: FeedRecord, doc: FeedDocumentRecord, cap: nat, max: nat)
    ensures
        updated_feed(fs, doc, cap, max).seen_keys.len() <= cap,
        fs.seen_keys.no_duplicates() ==> updated_feed(fs, doc, cap, max).seen_keys.no_duplicates(),
{
    let s0 = Seen { set: fs.seen_keys.to_set(), order: fs.seen_keys };
    lemma_trim_seen(s0, cap);
    let s1 = initial_seen(fs.seen_keys, cap);
    assert(s1.order.len() <= cap);
    lemma_scan_bounded(doc.entries, 0, s1, cap, max, seq![]);
}

/// A scan over entries whose keys are all already in the set picks nothing.
proof fn lemma_scan_all_seen(
    entries: Seq<FeedEntryRecord>,
    i: int,
    s: Seen,
    cap: nat,
    max: nat,
    picked: Seq<int>,
)
    requires
        0 <= i,
        forall|j: int| i <= j < entries.len() ==> s.set.contains(#[trigger] entry_key_spec(entries[j], j as nat)),
    ensures
        scan_spec(entries, i, s, cap, max, picked) == (s, picked),
    decreases entries.len() - i,
{
    if i < entries.len() {
        assert(s.set.contains(entry_key_spec(entries[i], i as nat)));
        lemma_scan_all_seen(entries, i + 1, s, cap, max, picked);
    }
}

/// A document whose every entry the feed has already seen (the seen keys
/// within the cap) adds nothing: the entries and seen keys stay, only the
/// title follows the document, and the feed changes only when the title did.
pub proof fn law_seen_document_adds_nothing(fs: FeedRecord, doc: FeedDocumentRecord, cap: nat, max: nat)
    requires
        fs.seen_keys.len() <= cap,
        forall|j: int| 0 <= j < doc.entries.len() ==> fs.seen_keys.contains(#[trigger] entry_key_spec(doc.entries[j], j as nat)),
    ensures
        feed_scan(fs, doc, cap, max).1.len() == 0,
        updated_feed(fs, doc, cap, max) == (FeedRecord { title: doc.title, ..fs }),
        update_changes(fs, doc, cap, max) == (fs.title != doc.title),
{
    let s0 = Seen { set: fs.seen_keys.to_set(), order: fs.seen_keys };
    lemma_trim_seen(s0, cap);
    assert forall|j: int| 0 <= j < doc.entries.len() implies s0.set.contains(#[trigger] entry_key_spec(doc.entries[j], j as nat)) by {
        assert(fs.seen_keys.contains(entry_key_spec(doc.entries[j], j as nat)));
    }
    lemma_scan_all_seen(doc.entries, 0, s0, cap, max, seq![]);
    let u = updated_feed(fs, doc, cap, max);
    assert(crate::update::picked_views(doc, seq![]) + fs.entries =~= fs.entries);
}

/// A scan that the cap never forces to forget, and that the item limit
/// stops at the last entry at the earliest, leaves every key of the entries in the set, the set only grown,
/// and the order grown by at most the number of entries scanned.
proof fn lemma_scan_remembers_all(
    entries: Seq<FeedEntryRecord>,
    i: int,
    s: Seen,
    cap: nat,
    max: nat,
    picked: Seq<int>,
)
    requires
        0 <= i <= entries.len(),
        seen_consistent(s),
        s.order.len() + (entries.len() - i) <= cap,
        picked.len() <= i,
        entries.len() <= max,
    ensures
        ({
            let r = scan_spec(entries, i, s, cap, max, picked).0;
            &&& seen_consistent(r)
            &&& r.order.len() <= cap
            &&& forall|k: Seq<char>| s.set.contains(k) ==> r.set.contains(k)
            &&& forall|j: int| i <= j < entries.len() ==> r.set.contains(#[trigger] entry_key_spec(entries[j], j as nat))
        }),
    decreases entries.len() - i,
{
    if i < entries.len() {
        let key = entry_key_spec(entries[i], i as nat);
        if s.set.contains(key) {
            lemma_scan_remembers_all(entries, i + 1, s, cap, max, picked);
        } else {
            lemma_remember(s, key, cap);
            let s2 = remember_spec(s, key, cap);
            if picked.push(i).len() < max {
                lemma_scan_remembers_all(entries, i + 1, s2, cap, max, picked.push(i));
            } else {
                assert(i == entries.len() - 1);
                lemma_trim_seen(s2, cap);
            }
        }
    } else {
        lemma_trim_seen(s, cap);
    }
}

/// Fetching the same document twice adds its entries once: when the cap
/// leaves room for the stored keys and every entry, and the item limit is
/// at least the number of entries, a second update with the same document
/// adds nothing and changes nothing.
pub proof fn law_update_twice_adds_once(fs: FeedRecord, doc: FeedDocumentRecord, cap: nat, max: nat)
    requires
        fs.seen_keys.no_duplicates(),
        fs.seen_keys.len() + doc.entries.len() <= cap,
        doc.entries.len() <= max,
    ensures
        feed_scan(updated_feed(fs, doc, cap, max), doc, cap, max).1.len() == 0,
        updated_feed(updated_feed(fs, doc, cap, max), doc, cap, max) == updated_feed(fs, doc, cap, max),
        !update_changes(updated_feed(fs, doc, cap, max), doc, cap, max),
{
    let s0 = Seen { set: fs.seen_keys.to_set(), order: fs.seen_keys };
    lemma_trim_seen(s0, cap);
    lemma_scan_remembers_all(doc.entries, 0, s0, cap, max, seq![]);
    let once = updated_feed(fs, doc, cap, max);
    let r = feed_scan(fs, doc, cap, max).0;
    assert(once.seen_keys == r.order);
    assert forall|j: int| 0 <= j < doc.entries.len() implies once.seen_keys.contains(#[trigger] entry_key_spec(doc.entries[j], j as nat)) by {
        assert(r.set.contains(entry_key_spec(doc.entries[j], j as nat)));
    }
    law_seen_document_adds_nothing(once, doc, cap, max);
}

/// After making sure of a feed for `url`: a feed is stored under `url`,
/// its URL is `url` and its seen keys are within the cap; every other feed
/// is as it was, and no key occurs twice when none did.
pub proof fn law_ensure_feed_shape(feeds: Seq<(Seq<char>, FeedRecord)>, url: Seq<char>, cap: nat)
    requires
        keys_distinct(feeds),
    ensures
        ({
            let after = ensure_spec(feeds, url, cap);
            &&& keys_distinct(after)
            &&& feed_map(after).contains_key(url)
            &&& feed_map(after)[url].feed_url == url
            &&& feed_map(after)[url].seen_keys.len() <= cap
            &&& forall|k: Seq<char>| k != url ==> (#[trigger] feed_map(after).contains_key(k) == feed_map(feeds).contains_key(k))
            &&& forall|k: Seq<char>| k != url && feed_map(feeds).contains_key(k) ==> #[trigger] feed_map(after)[k] == feed_map(feeds)[k]
        }),
{
    let after = ensure_spec(feeds, url, cap);
    crate::update::lemma_ensure_has_key(feeds, url, cap);
    let found = has_key(feeds, url);
    let i = if found { key_pos(feeds, url) } else { feeds.len() as int };
    assert(after[i].0 == url);
    assert(keys_distinct(after)) by {
        assert forall|a: int, b: int| 0 <= a < after.len() && 0 <= b < after.len() && a != b implies #[trigger] after[a].0 != #[trigger] after[b].0 by {
            if a != i && b != i {
                assert(after[a] == feeds[a] && after[b] == feeds[b]);
            } else if a == i {
                assert(after[b] == feeds[b]);
                if found {
                    assert(feeds[i].0 == url);
                }
            } else {
                assert(after[a] == feeds[a]);
                if found {
                    assert(feeds[i].0 == url);
                }
            }
        }
    }
    let kp = key_pos(after, url);
    assert(kp == i);
    let keys = if after[i].1.seen_keys.len() == 0 { seq![] } else { after[i].1.seen_keys };
    assert(after[i].1.seen_keys.len() <= cap);
    assert forall|k: Seq<char>| k != url implies (#[trigger] feed_map(after).contains_key(k) == feed_map(feeds).contains_key(k)) by {
        if has_key(after, k) {
            let a = choose|a: int| 0 <= a < after.len() && #[trigger] after[a].0 == k;
            assert(a != i);
            assert(feeds[a].0 == k);
        }
        if has_key(feeds, k) {
            let a = choose|a: int| 0 <= a < feeds.len() && #[trigger] feeds[a].0 == k;
            if found {
                assert(a != i);
            }
            assert(after[a].0 == k);
        }
    }
    assert forall|k: Seq<char>| k != url && feed_map(feeds).contains_key(k) implies #[trigger] feed_map(after)[k] == feed_map(feeds)[k] by {
        let a = key_pos(feeds, k);
        if found {
            assert(a != i);
        }
        assert(after[a].0 == k);
        let b = key_pos(after, k);
        assert(b == a);
    }
}

/// An entry position is shown exactly when it is in range and the entry
/// passes the mode and query.
proof fn lemma_shown_positions(entries: Seq<crate::model::EntryRecord>, m: crate::tui::SortMode, q: Seq<char>, n: nat)
    requires
        n <= entries.len(),
    ensures
        forall|p: int| #[trigger] crate::tui::shown_positions(entries, m, q, n).contains(p) <==> (0 <= p < n
            && crate::tui::entry_shown(entries[p], m, q)),
        crate::tui::shown_positions(entries, m, q, n).no_duplicates(),
        forall|a: int, b: int| 0 <= a < b < crate::tui::shown_positions(entries, m, q, n).len()
            ==> #[trigger] crate::tui::shown_positions(entries, m, q, n)[a]
            < #[trigger] crate::tui::shown_positions(entries, m, q, n)[b],
    decreases n,
{
    if n > 0 {
        lemma_shown_positions(entries, m, q, (n - 1) as nat);
        let rest = crate::tui::shown_positions(entries, m, q, (n - 1) as nat);
        let all = crate::tui::shown_positions(entries, m, q, n);
        if crate::tui::entry_shown(entries[n - 1], m, q) {
            assert forall|a: int, b: int| 0 <= a < b < all.len() implies #[trigger] all[a] < #[trigger] all[b] by {
                if b < rest.len() {
                    assert(all[a] == rest[a] && all[b] == rest[b]);
                } else {
                    assert(all[a] == rest[a]);
                    assert(rest.contains(rest[a]));
                }
            }
            assert forall|p: int| #[trigger] all.contains(p) <==> (0 <= p < n && crate::tui::entry_shown(entries[p], m, q)) by {
                if all.contains(p) {
                    let j = choose|j: int| 0 <= j < all.len() && all[j] == p;
                    if j < rest.len() {
                        assert(rest.contains(p));
                    }
                }
                if 0 <= p < n && crate::tui::entry_shown(entries[p], m, q) {
                    if p == n - 1 {
                        assert(all[rest.len() as int] == p);
                    } else {
                        assert(rest.contains(p));
                        let j = choose|j: int| 0 <= j < rest.len() && rest[j] == p;
                        assert(all[j] == p);
                    }
                }
            }
            assert forall|a: int, b: int| 0 <= a < all.len() && 0 <= b < all.len() && a != b implies all[a] != all[b] by {
                if a < rest.len() && b < rest.len() {
                } else if a < rest.len() {
                    assert(rest.contains(all[a]));
                } else {
                    assert(rest.contains(all[b]));
                }
            }
        }
    }
}

/// The feed listing holds every stored feed once, ordered by the lowercase
/// of the feed's name; feeds whose names tie keep their stored order.
pub proof fn law_feed_listing(feeds: Seq<(Seq<char>, FeedRecord)>)
    ensures
        crate::tui::feed_order(feeds).len() == feeds.len(),
        crate::tui::feed_order(feeds).to_multiset() == crate::tui::positions(feeds.len()).to_multiset(),
        forall|p: int| #[trigger] crate::tui::feed_order(feeds).contains(p) <==> 0 <= p < feeds.len(),
        crate::order::sorted_by(crate::tui::feed_order(feeds), crate::tui::feed_sort_keys(feeds), false),
        crate::order::stable_order(crate::tui::feed_order(feeds), crate::tui::feed_sort_keys(feeds)),
{
    let xs = crate::tui::positions(feeds.len());
    let keys = crate::tui::feed_sort_keys(feeds);
    crate::order::lemma_stable_sort_len(xs, keys, false);
    crate::order::lemma_stable_sort_items(xs, keys, false);
    crate::order::lemma_stable_sort_sorted(xs, keys, false);
    crate::order::lemma_stable_sort_stable(xs, keys, false);
    assert forall|p: int| #[trigger] crate::tui::feed_order(feeds).contains(p) <==> 0 <= p < feeds.len() by {
        if 0 <= p < feeds.len() {
            assert(xs[p] == p);
        }
    }
}

/// The entries shown for a feed are exactly those the mode and the search
/// let through, each once, newest first by publication time (oldest first
/// in the old→new mode); entries with equal times keep their stored order.
pub proof fn law_visible_entries(
    feeds: Seq<(Seq<char>, FeedRecord)>,
    order: Seq<int>,
    index: int,
    st: crate::tui::TuiRecord,
)
    ensures
        ({
            let es = crate::tui::listed_entries(feeds, order, index);
            let vis = crate::tui::visible_entries(feeds, order, index, st);
            &&& forall|p: int| #[trigger] vis.contains(p) <==> (0 <= p < es.len() && crate::tui::entry_shown(
                es[p],
                st.sort_mode,
                crate::tui::query_of(st),
            ))
            &&& vis.no_duplicates()
            &&& crate::order::sorted_by(vis, crate::tui::published_keys(es), st.sort_mode != crate::tui::SortMode::OldFirst)
            &&& crate::order::stable_order(vis, crate::tui::published_keys(es))
        }),
{
    let es = crate::tui::listed_entries(feeds, order, index);
    let q = crate::tui::query_of(st);
    let sh = crate::tui::shown_positions(es, st.sort_mode, q, es.len());
    let keys = crate::tui::published_keys(es);
    let desc = st.sort_mode != crate::tui::SortMode::OldFirst;
    lemma_shown_positions(es, st.sort_mode, q, es.len());
    crate::order::lemma_stable_sort_items(sh, keys, desc);
    crate::order::lemma_stable_sort_sorted(sh, keys, desc);
    crate::order::lemma_stable_sort_stable(sh, keys, desc);
    let vis = crate::tui::visible_entries(feeds, order, index, st);
    assert(vis.no_duplicates()) by {
        sh.lemma_multiset_has_no_duplicates();
        assert forall|x: int| vis.to_multiset().contains(x) implies vis.to_multiset().count(x) == 1 by {
            assert(vis.to_multiset().count(x) == sh.to_multiset().count(x));
        }
        vis.lemma_multiset_has_no_duplicates_conv();
    }
}

/// After normalizing, each selection points into its list (or is 0 when
/// the list is empty).
pub proof fn law_normalized_selection(app: crate::model::AppRecord, st: crate::tui::TuiRecord)
    ensures
        ({
            let n = crate::tui::normalized_tui(app, st);
            let order = crate::tui::feed_order(app.feeds);
            let vis = crate::tui::visible_entries(app.feeds, order, n.feed_index as int, n);
            &&& (order.len() > 0 ==> n.feed_index < order.len())
            &&& (order.len() == 0 ==> n.feed_index == 0)
            &&& (vis.len() > 0 ==> n.entry_index < vis.len())
            &&& (vis.len() == 0 ==> n.entry_index == 0)
        }),
{
}

/// Cycling the sort mode comes back after four steps and never stays put.
pub proof fn law_sort_mode_cycle(m: crate::tui::SortMode)
    ensures
        crate::tui::next_mode(crate::tui::next_mode(crate::tui::next_mode(crate::tui::next_mode(m)))) == m,
        crate::tui::next_mode(m) != m,
{
}

/// Adding a feed URL twice is adding it once; afterwards it is stored.
pub proof fn law_insert_feed_idempotent(feeds: Seq<(Seq<char>, FeedRecord)>, url: Seq<char>)
    ensures
        crate::tui::insert_feed_spec(crate::tui::insert_feed_spec(feeds, url), url) == crate::tui::insert_feed_spec(feeds, url),
        has_key(crate::tui::insert_feed_spec(feeds, url), url),
{
    let f1 = crate::tui::insert_feed_spec(feeds, url);
    if !has_key(feeds, url) {
        assert(f1[feeds.len() as int].0 == url);
    }
}

/// Marking an entry read keeps the feeds, their keys and their entries'
/// keys; only read flags may change, and only to read.
pub proof fn law_mark_read_keeps_entries(feeds: Seq<(Seq<char>, FeedRecord)>, feed_key: Seq<char>, entry_key: Seq<char>)
    ensures
        ({
            let after = crate::tui::mark_read_spec(feeds, feed_key, entry_key);
            &&& after.len() == feeds.len()
            &&& forall|i: int| 0 <= i < feeds.len() ==> (#[trigger] after[i]).0 == feeds[i].0
                && after[i].1.entries.len() == feeds[i].1.entries.len()
            &&& forall|i: int, j: int| 0 <= i < feeds.len() && 0 <= j < feeds[i].1.entries.len() ==> {
                let a = #[trigger] after[i].1.entries[j];
                let b = feeds[i].1.entries[j];
                &&& a.key == b.key
                &&& a.title == b.title
                &&& a.link == b.link
                &&& (b.is_read ==> a.is_read)
            }
        }),
{
    if has_key(feeds, feed_key) {
        let ki = key_pos(feeds, feed_key);
        let es = feeds[ki].1.entries;
        if exists|j: int| 0 <= j < es.len() && #[trigger] es[j].key == entry_key {
            crate::tui::lemma_first_with_key(es, entry_key, es.len() as int);
        }
        if let Some(jj) = crate::tui::first_with_key(es, entry_key) {
            let after = crate::tui::mark_read_spec(feeds, feed_key, entry_key);
            assert(0 <= jj < es.len());
            assert forall|i: int| 0 <= i < feeds.len() implies (#[trigger] after[i]).0 == feeds[i].0
                && after[i].1.entries.len() == feeds[i].1.entries.len() by {
            }
            assert forall|i: int, j: int| 0 <= i < feeds.len() && 0 <= j < feeds[i].1.entries.len() implies {
                let a = #[trigger] after[i].1.entries[j];
                let b = feeds[i].1.entries[j];
                &&& a.key == b.key
                &&& a.title == b.title
                &&& a.link == b.link
                &&& (b.is_read ==> a.is_read)
            } by {
                if i == ki && j == jj {
                } else if i == ki {
                    assert(after[i].1.entries[j] == es[j]);
                }
            }
        }
    }
}

/// Marking an entry read twice is marking it once.
pub proof fn law_mark_read_idempotent(feeds: Seq<(Seq<char>, FeedRecord)>, feed_key: Seq<char>, entry_key: Seq<char>)
    requires
        keys_distinct(feeds),
    ensures
        crate::tui::mark_read_spec(crate::tui::mark_read_spec(feeds, feed_key, entry_key), feed_key, entry_key)
            == crate::tui::mark_read_spec(feeds, feed_key, entry_key),
{
    let once = crate::tui::mark_read_spec(feeds, feed_key, entry_key);
    if has_key(feeds, feed_key) {
        let ki = key_pos(feeds, feed_key);
        let es = feeds[ki].1.entries;
        if exists|j: int| 0 <= j < es.len() && #[trigger] es[j].key == entry_key {
            crate::tui::lemma_first_with_key(es, entry_key, es.len() as int);
            let jj = crate::tui::first_with_key(es, entry_key)->0;
            let es2 = es.update(jj, crate::model::EntryRecord { is_read: true, ..es[jj] });
            assert(once[ki].0 == feed_key);
            assert(has_key(once, feed_key));
            assert(key_pos(once, feed_key) == ki) by {
                let k2 = key_pos(once, feed_key);
                assert(once[k2].0 == feeds[k2].0);
            }
            assert(once[ki].1.entries == es2);
            assert(es2[jj].key == entry_key);
            crate::tui::lemma_first_with_key(es2, entry_key, es2.len() as int);
            let j2 = crate::tui::first_with_key(es2, entry_key)->0;
            assert(j2 == jj) by {
                if j2 < jj {
                    assert(es2[j2].key == es[j2].key);
                } else if j2 > jj {
                    assert(es2[jj].key == entry_key);
                }
            }
            assert(es2.update(jj, crate::model::EntryRecord { is_read: true, ..es2[jj] }) =~= es2);
            assert(crate::tui::mark_read_spec(once, feed_key, entry_key) =~= once);
        } else {
            assert(once == feeds);
        }
    }
}

/// Confirming the deletion of a stored feed removes it and only it.
pub proof fn law_delete_removes_feed(app: crate::model::AppRecord, st: crate::tui::TuiRecord, key: Seq<char>)
    requires
        app.wf(),
        st.pending_delete == Some(key),
        has_key(app.feeds, key),
    ensures
        ({
            let after = crate::tui::confirm_delete_spec(app, st).0.feeds;
            &&& !has_key(after, key)
            &&& after.len() + 1 == app.feeds.len()
            &&& forall|k: Seq<char>| k != key ==> (has_key(after, k) == has_key(app.feeds, k))
        }),
{
    let i = key_pos(app.feeds, key);
    let after = app.feeds.remove(i);
    assert(!has_key(after, key)) by {
        if has_key(after, key) {
            let a = choose|a: int| 0 <= a < after.len() && #[trigger] after[a].0 == key;
            let a2 = if a < i { a } else { a + 1 };
            assert(app.feeds[a2].0 == key);
            assert(app.feeds[i].0 == key);
        }
    }
    assert forall|k: Seq<char>| k != key implies (has_key(after, k) == has_key(app.feeds, k)) by {
        if has_key(after, k) {
            let a = choose|a: int| 0 <= a < after.len() && #[trigger] after[a].0 == k;
            let a2 = if a < i { a } else { a + 1 };
            assert(app.feeds[a2].0 == k);
        }
        if has_key(app.feeds, k) {
            let a = choose|a: int| 0 <= a < app.feeds.len() && #[trigger] app.feeds[a].0 == k;
            assert(a != i);
            let a2 = if a < i { a } else { a - 1 };
            assert(after[a2].0 == k);
        }
    }
}

/// Keeping each element once keeps no duplicates and holds exactly the
/// elements of both lists.
proof fn lemma_dedup_append(acc: Seq<Seq<char>>, xs: Seq<Seq<char>>)
    ensures
        acc.no_duplicates() ==> dedup_append(acc, xs).no_duplicates(),
        forall|y: Seq<char>| #[trigger] dedup_append(acc, xs).contains(y) <==> (acc.contains(y) || xs.contains(y)),
        dedup_append(acc, xs).len() >= acc.len(),
    decreases xs.len(),
{
    if xs.len() > 0 {
        let next = if acc.contains(xs[0]) { acc } else { acc.push(xs[0]) };
        lemma_dedup_append(next, xs.drop_first());
        if acc.no_duplicates() && !acc.contains(xs[0]) {
            crate::update::lemma_push_to_set(acc, xs[0]);
        }
        assert forall|y: Seq<char>| #[trigger] dedup_append(acc, xs).contains(y) <==> (acc.contains(y) || xs.contains(y)) by {
            if next.contains(y) && !acc.contains(y) {
                let j = choose|j: int| 0 <= j < next.len() && next[j] == y;
                assert(y == xs[0]);
                assert(xs.contains(y));
            }
            if acc.contains(y) {
                let j = choose|j: int| 0 <= j < acc.len() && acc[j] == y;
                assert(next[j] == y);
            }
            if xs.contains(y) {
                let j = choose|j: int| 0 <= j < xs.len() && xs[j] == y;
                if j == 0 {
                    if !acc.contains(y) {
                        assert(next[acc.len() as int] == y);
                    }
                } else {
                    assert(xs.drop_first()[j - 1] == y);
                }
            }
            if xs.drop_first().contains(y) {
                let j = choose|j: int| 0 <= j < xs.drop_first().len() && xs.drop_first()[j] == y;
                assert(xs[j + 1] == y);
            }
        }
    }
}

/// With no invalid value, every value is a URL.
proof fn lemma_first_invalid(xs: Seq<Seq<char>>)
    ensures
        first_invalid(xs) is None ==> forall|x: Seq<char>| #[trigger] xs.contains(x) ==> url_parses(x),
    decreases xs.len(),
{
    if xs.len() > 0 {
        lemma_first_invalid(xs.drop_first());
        if first_invalid(xs) is None {
            assert forall|x: Seq<char>| #[trigger] xs.contains(x) implies url_parses(x) by {
                let j = choose|j: int| 0 <= j < xs.len() && xs[j] == x;
                assert(url_parses(xs[0]));
                assert(first_invalid(xs.drop_first()) is None);
                if j > 0 {
                    assert(xs.drop_first()[j - 1] == x);
                    assert(xs.drop_first().contains(x));
                }
            }
        }
    }
}

/// Every feed a feeds file lists is a URL.
proof fn lemma_file_feeds_are_urls(lines: Seq<Seq<char>>, i: int)
    ensures
        parse_lines_spec(lines, i) matches Ok(fs) ==> forall|x: Seq<char>| #[trigger] fs.contains(x) ==> url_parses(x),
    decreases lines.len() - i,
{
    if !(i < 0 || i >= lines.len()) {
        lemma_file_feeds_are_urls(lines, i + 1);
        if let Ok(fs) = parse_lines_spec(lines, i) {
            if !crate::config::skipped_line(lines[i]) {
                let t = crate::text::trim_spec(lines[i]);
                if let Ok(rest) = parse_lines_spec(lines, i + 1) {
                    assert(fs == seq![t] + rest);
                    assert forall|x: Seq<char>| #[trigger] fs.contains(x) implies url_parses(x) by {
                        let j = choose|j: int| 0 <= j < fs.len() && fs[j] == x;
                        assert(url_parses(t));
                        if j > 0 {
                            assert(rest[j - 1] == x);
                            assert(rest.contains(x));
                        }
                    }
                }
            }
        }
    }
}

/// The feed list the options give is never empty, holds each feed once,
/// and holds only URLs.
pub proof fn law_resolved_feeds(a: ArgsRecord, file: Result<Seq<char>, Seq<char>>)
    ensures
        resolve_spec(a, file) matches Ok(fs) ==> {
            &&& fs.len() > 0
            &&& fs.no_duplicates()
            &&& forall|x: Seq<char>| #[trigger] fs.contains(x) ==> url_parses(x)
        },
{
    let empty: Seq<Seq<char>> = seq![];
    lemma_first_invalid(a.feeds);
    lemma_dedup_append(empty, a.feeds);
    let acc1 = dedup_append(empty, a.feeds);
    if let Some(path) = a.feeds_file {
        if let Ok(c) = file {
            lemma_file_feeds_are_urls(crate::text::lines_spec(c), 0);
            if let Ok(fs) = feeds_file_spec(c) {
                lemma_dedup_append(acc1, fs);
            }
        }
    }
    let acc2 = match a.feeds_file {
        None => acc1,
        Some(path) => match read_feeds_file_spec(path, file) {
            Ok(fs) => dedup_append(acc1, fs),
            Err(_) => acc1,
        },
    };
    if let Some(u) = a.url {
        lemma_dedup_append(acc2, seq![u]);
        assert forall|x: Seq<char>| #[trigger] seq![u].contains(x) implies x == u by {
            let j = choose|j: int| 0 <= j < 1 && seq![u][j] == x;
        }
    }
    lemma_first_invalid(default_feeds_spec());
    lemma_dedup_append(acc2, default_feeds_spec());
}

/// An update puts the new entries, all unread, in front of the stored
/// ones, which stay as they were.
pub proof fn law_update_keeps_stored_entries(fs: FeedRecord, doc: FeedDocumentRecord, cap: nat, max: nat)
    ensures
        ({
            let u = updated_feed(fs, doc, cap, max);
            let n = feed_scan(fs, doc, cap, max).1.len();
            &&& u.entries.len() == n + fs.entries.len()
            &&& u.entries.skip(n as int) == fs.entries
            &&& forall|j: int| 0 <= j < n ==> !(#[trigger] u.entries[j]).is_read
            &&& u.feed_url == fs.feed_url
        }),
{
    let u = updated_feed(fs, doc, cap, max);
    let n = feed_scan(fs, doc, cap, max).1.len();
    assert(u.entries.skip(n as int) =~= fs.entries);
}

/// A move keeps the selection inside a non-empty list.
pub proof fn law_move_stays_in_range(i: usize, len: nat, delta: int)
    ensures
        len > 0 ==> crate::tui::moved_index(i, len, delta) < len,
        len == 0 ==> crate::tui::moved_index(i, len, delta) == 0,
{
}

/// After importing a feeds file, every URL it lists is stored, and the
/// number added is the number of those not stored before.
pub proof fn law_import_stores_all(feeds: Seq<(Seq<char>, FeedRecord)>, urls: Seq<Seq<char>>)
    ensures
        forall|u: Seq<char>| #[trigger] urls.contains(u) ==> has_key(crate::tui::import_spec(feeds, urls).0, u),
        forall|k: Seq<char>| has_key(feeds, k) ==> has_key(crate::tui::import_spec(feeds, urls).0, k),
    decreases urls.len(),
{
    if urls.len() > 0 {
        law_import_stores_all(feeds, urls.drop_last());
        let (f1, first, n) = crate::tui::import_spec(feeds, urls.drop_last());
        let u = urls.last();
        law_insert_feed_idempotent(f1, u);
        let f2 = crate::tui::import_spec(feeds, urls).0;
        assert forall|k: Seq<char>| has_key(f1, k) implies has_key(f2, k) by {
            let a = choose|a: int| 0 <= a < f1.len() && #[trigger] f1[a].0 == k;
            if !has_key(f1, u) {
                assert(f2[a].0 == k);
            }
        }
        assert forall|x: Seq<char>| #[trigger] urls.contains(x) implies has_key(f2, x) by {
            let j = choose|j: int| 0 <= j < urls.len() && urls[j] == x;
            if j < urls.len() - 1 {
                assert(urls.drop_last()[j] == x);
                assert(urls.drop_last().contains(x));
            }
        }
    }
}

/// The trimmed lines of a feeds file that are neither blank nor comments.
pub open spec fn listed_lines(lines: Seq<Seq<char>>) -> Seq<Seq<char>>
    decreases lines.len(),
{
    if lines.len() == 0 {
        seq![]
    } else if crate::config::skipped_line(lines[0]) {
        listed_lines(lines.drop_first())
    } else {
        seq![crate::text::trim_spec(lines[0])] + listed_lines(lines.drop_first())
    }
}

/// A feeds file lists one URL per line, trimmed, blank lines and `#`
/// comments left out: when every listed line is a URL, those are its feeds.
pub proof fn law_feeds_file_lines(lines: Seq<Seq<char>>, i: int)
    requires
        0 <= i <= lines.len(),
        forall|x: Seq<char>| #[trigger] listed_lines(lines.skip(i)).contains(x) ==> url_parses(x),
    ensures
        parse_lines_spec(lines, i) == Ok::<Seq<Seq<char>>, ResolveFailure>(listed_lines(lines.skip(i))),
    decreases lines.len() - i,
{
    let rest = lines.skip(i);
    if i < lines.len() {
        assert(rest.drop_first() =~= lines.skip(i + 1));
        assert(rest[0] == lines[i]);
        let tail = listed_lines(lines.skip(i + 1));
        if crate::config::skipped_line(lines[i]) {
            assert(listed_lines(rest) == tail);
            law_feeds_file_lines(lines, i + 1);
        } else {
            let t = crate::text::trim_spec(lines[i]);
            assert(listed_lines(rest) == seq![t] + tail);
            assert(listed_lines(rest)[0] == t);
            assert(listed_lines(rest).contains(t));
            assert forall|x: Seq<char>| #[trigger] tail.contains(x) implies url_parses(x) by {
                let j = choose|j: int| 0 <= j < tail.len() && tail[j] == x;
                assert(listed_lines(rest)[j + 1] == x);
                assert(listed_lines(rest).contains(x));
            }
            law_feeds_file_lines(lines, i + 1);
        }
    } else {
        assert(rest =~= Seq::<Seq<char>>::empty());
    }
}

/// An entry's key does not depend on its position in the feed unless it
/// has no id, link, title, summary, author or publication time at all.
pub proof fn law_entry_key_position_independent(e: FeedEntryRecord, i: nat, j: nat)
    requires
        e.id is Some || e.link is Some || e.links.len() > 0 || e.title is Some
            || crate::feed::text_or_empty(e.summary).len() > 0
            || crate::feed::text_or_empty(e.author).len() > 0
            || crate::feed::text_or_empty(e.published).len() > 0,
    ensures
        entry_key_spec(e, i) == entry_key_spec(e, j),
{
}

/// The keys of the picked entries, in the order they were picked.
pub open spec fn picked_keys(entries: Seq<FeedEntryRecord>, picked: Seq<int>) -> Seq<Seq<char>> {
    picked.map_values(|i: int| entry_key_spec(entries[i], i as nat))
}

/// Keeping the newest `cap` keys, then adding more and keeping the newest
/// `cap` again, is keeping the newest `cap` of all of them.
pub proof fn lemma_newest_keys_append(a: Seq<Seq<char>>, b: Seq<Seq<char>>, cap: nat)
    ensures
        newest_keys(newest_keys(a, cap) + b, cap) == newest_keys(a + b, cap),
{
    let l = a.len();
    let n = b.len();
    if l > cap {
        let na = a.skip(l - cap);
        if n > 0 {
            let left = (na + b).skip(n as int);
            let right = (a + b).skip(l + n - cap);
            assert forall|k: int| 0 <= k < cap implies left[k] == right[k] by {
                if n + k < cap {
                    assert(left[k] == na[n + k]);
                    assert(right[k] == a[l + n - cap + k]);
                } else {
                    assert(left[k] == b[n + k - cap]);
                    assert(right[k] == b[k + n - cap]);
                }
            }
            assert(left =~= right);
        } else {
            assert(na + b =~= na);
            assert(a + b =~= a);
        }
    }
}

/// The scan remembers the keys it picks as [`newest_keys`] does, and picks
/// no more than the item limit allows (at least one).
proof fn lemma_scan_window(
    entries: Seq<FeedEntryRecord>,
    i: int,
    s: Seen,
    cap: nat,
    max: nat,
    picked: Seq<int>,
)
    requires
        0 <= i,
        s.order.len() <= cap,
    ensures
        ({
            let (r, p) = scan_spec(entries, i, s, cap, max, picked);
            &&& p.len() >= picked.len()
            &&& p.take(picked.len() as int) == picked
            &&& r.order == newest_keys(s.order + picked_keys(entries, p.skip(picked.len() as int)), cap)
            &&& p.len() <= if picked.len() < max { max as int } else { picked.len() + 1int }
        }),
    decreases entries.len() - i,
{
    let (r, p) = scan_spec(entries, i, s, cap, max, picked);
    if i >= entries.len() {
        assert(p.skip(picked.len() as int) =~= Seq::<int>::empty());
        assert(s.order + picked_keys(entries, Seq::<int>::empty()) =~= s.order);
        assert(p.take(picked.len() as int) =~= picked);
    } else {
        let key = entry_key_spec(entries[i], i as nat);
        if s.set.contains(key) {
            lemma_scan_window(entries, i + 1, s, cap, max, picked);
        } else {
            let pushed = Seen { set: s.set.insert(key), order: s.order.push(key) };
            lemma_trim_seen(pushed, cap);
            let s2 = remember_spec(s, key, cap);
            assert(s2.order == newest_keys(s.order.push(key), cap));
            let p2 = picked.push(i);
            if p2.len() >= max {
                assert(p2.skip(picked.len() as int) =~= seq![i]);
                assert(picked_keys(entries, seq![i]) =~= seq![key]);
                assert(s.order.push(key) =~= s.order + seq![key]);
                assert(p2.take(picked.len() as int) =~= picked);
            } else {
                lemma_scan_window(entries, i + 1, s2, cap, max, p2);
                let extra = p.skip(p2.len() as int);
                assert(p.skip(picked.len() as int) =~= seq![i] + extra) by {
                    assert(p.take(p2.len() as int) == p2);
                    assert forall|k: int| 0 <= k < p.len() - picked.len() implies #[trigger] p.skip(picked.len() as int)[k] == (seq![i] + extra)[k] by {
                        if k == 0 {
                            assert(p.take(p2.len() as int)[picked.len() as int] == p2[picked.len() as int]);
                        }
                    }
                }
                assert(picked_keys(entries, seq![i] + extra) =~= seq![key] + picked_keys(entries, extra));
                lemma_newest_keys_append(s.order.push(key), picked_keys(entries, extra), cap);
                assert(s.order.push(key) + picked_keys(entries, extra) =~= s.order + (seq![key] + picked_keys(entries, extra)));
                assert(p.take(picked.len() as int) =~= picked) by {
                    assert(p.take(p2.len() as int) == p2);
                    assert forall|k: int| 0 <= k < picked.len() implies #[trigger] p.take(picked.len() as int)[k] == picked[k] by {
                        assert(p.take(p2.len() as int)[k] == p2[k]);
                    }
                }
            }
        }
    }
}

/// After an update the seen keys are the newest `seen_cap` of the stored
/// keys followed by the keys of the entries added (the keys of the new
/// stored entries, in order), and no more entries are added than the item
/// limit allows, with at least one allowed.
pub proof fn law_update_seen_window(fs: FeedRecord, doc: FeedDocumentRecord, cap: nat, max: nat)
    ensures
        ({
            let p = feed_scan(fs, doc, cap, max).1;
            &&& updated_feed(fs, doc, cap, max).seen_keys == newest_keys(fs.seen_keys + picked_keys(doc.entries, p), cap)
            &&& crate::update::picked_views(doc, p).map_values(|e: crate::model::EntryRecord| e.key) == picked_keys(doc.entries, p)
            &&& p.len() <= if max >= 1 { max } else { 1 }
        }),
{
    let s0 = Seen { set: fs.seen_keys.to_set(), order: fs.seen_keys };
    lemma_trim_seen(s0, cap);
    let s1 = initial_seen(fs.seen_keys, cap);
    assert(s1.order == newest_keys(fs.seen_keys, cap));
    let empty: Seq<int> = seq![];
    lemma_scan_window(doc.entries, 0, s1, cap, max, empty);
    let p = feed_scan(fs, doc, cap, max).1;
    assert(p.skip(0) =~= p);
    lemma_newest_keys_append(fs.seen_keys, picked_keys(doc.entries, p), cap);
    assert(crate::update::picked_views(doc, p).map_values(|e: crate::model::EntryRecord| e.key) =~= picked_keys(doc.entries, p));
}

/// In a sequence without duplicates each element counts once.
proof fn lemma_count_no_duplicates(s: Seq<int>)
    requires
        s.no_duplicates(),
    ensures
        forall|x: int| #[trigger] s.to_multiset().count(x) == if s.contains(x) { 1nat } else { 0nat },
{
    broadcast use vstd::seq_lib::group_to_multiset_ensures;
    s.lemma_multiset_has_no_duplicates();
}

/// The unread and read filters split the entries a feed shows: no entry
/// is in both, and together they hold each shown entry once; the two
/// orders show the same entries.
pub proof fn law_read_filters_partition(
    feeds: Seq<(Seq<char>, FeedRecord)>,
    order: Seq<int>,
    index: int,
    st: crate::tui::TuiRecord,
)
    ensures
        ({
            let unread = crate::tui::visible_entries(feeds, order, index, crate::tui::TuiRecord { sort_mode: crate::tui::SortMode::UnreadOnly, ..st });
            let read = crate::tui::visible_entries(feeds, order, index, crate::tui::TuiRecord { sort_mode: crate::tui::SortMode::ReadOnly, ..st });
            let newest = crate::tui::visible_entries(feeds, order, index, crate::tui::TuiRecord { sort_mode: crate::tui::SortMode::NewFirst, ..st });
            let oldest = crate::tui::visible_entries(feeds, order, index, crate::tui::TuiRecord { sort_mode: crate::tui::SortMode::OldFirst, ..st });
            &&& forall|p: int| !(#[trigger] unread.contains(p) && read.contains(p))
            &&& unread.to_multiset().add(read.to_multiset()) == newest.to_multiset()
            &&& oldest.to_multiset() == newest.to_multiset()
        }),
{
    let su = crate::tui::TuiRecord { sort_mode: crate::tui::SortMode::UnreadOnly, ..st };
    let sr = crate::tui::TuiRecord { sort_mode: crate::tui::SortMode::ReadOnly, ..st };
    let sn = crate::tui::TuiRecord { sort_mode: crate::tui::SortMode::NewFirst, ..st };
    let so = crate::tui::TuiRecord { sort_mode: crate::tui::SortMode::OldFirst, ..st };
    law_visible_entries(feeds, order, index, su);
    law_visible_entries(feeds, order, index, sr);
    law_visible_entries(feeds, order, index, sn);
    law_visible_entries(feeds, order, index, so);
    let unread = crate::tui::visible_entries(feeds, order, index, su);
    let read = crate::tui::visible_entries(feeds, order, index, sr);
    let newest = crate::tui::visible_entries(feeds, order, index, sn);
    let oldest = crate::tui::visible_entries(feeds, order, index, so);
    lemma_count_no_duplicates(unread);
    lemma_count_no_duplicates(read);
    lemma_count_no_duplicates(newest);
    lemma_count_no_duplicates(oldest);
    let es = crate::tui::listed_entries(feeds, order, index);
    assert forall|p: int| !(#[trigger] unread.contains(p) && read.contains(p)) by {
        if unread.contains(p) && read.contains(p) {
            assert(crate::tui::entry_shown(es[p], crate::tui::SortMode::UnreadOnly, crate::tui::query_of(su)));
            assert(crate::tui::entry_shown(es[p], crate::tui::SortMode::ReadOnly, crate::tui::query_of(sr)));
        }
    }
    assert forall|p: int| #[trigger] newest.contains(p) <==> (unread.contains(p) || read.contains(p)) by {
        assert(unread.contains(p) == (0 <= p < es.len() && crate::tui::entry_shown(es[p], crate::tui::SortMode::UnreadOnly, crate::tui::query_of(st))));
        assert(read.contains(p) == (0 <= p < es.len() && crate::tui::entry_shown(es[p], crate::tui::SortMode::ReadOnly, crate::tui::query_of(st))));
        assert(newest.contains(p) == (0 <= p < es.len() && crate::tui::entry_shown(es[p], crate::tui::SortMode::NewFirst, crate::tui::query_of(st))));
    }
    assert forall|p: int| #[trigger] oldest.contains(p) <==> newest.contains(p) by {
        assert(oldest.contains(p) == (0 <= p < es.len() && crate::tui::entry_shown(es[p], crate::tui::SortMode::OldFirst, crate::tui::query_of(st))));
        assert(newest.contains(p) == (0 <= p < es.len() && crate::tui::entry_shown(es[p], crate::tui::SortMode::NewFirst, crate::tui::query_of(st))));
    }
    assert(unread.to_multiset().add(read.to_multiset()) =~= newest.to_multiset());
    assert(oldest.to_multiset() =~= newest.to_multiset());
}

/// Keeping the newest `cap` keys twice is keeping them once.
proof fn lemma_newest_keys_idempotent(k: Seq<Seq<char>>, cap: nat)
    ensures
        newest_keys(newest_keys(k, cap), cap) == newest_keys(k, cap),
{
}

/// Putting a feed in shape twice is putting it in shape once.
proof fn lemma_normalize_idempotent(fs: FeedRecord, url: Seq<char>, cap: nat)
    ensures
        crate::update::normalize_feed(crate::update::normalize_feed(fs, url, cap), url, cap) == crate::update::normalize_feed(fs, url, cap),
{
    let n = crate::update::normalize_feed(fs, url, cap);
    lemma_newest_keys_idempotent(
        if fs.seen_keys.len() == 0 && fs.entries.len() > 0 { crate::update::entry_keys(fs.entries) } else { fs.seen_keys },
        cap,
    );
    if n.seen_keys.len() == 0 && n.entries.len() > 0 {
        assert(cap == 0);
        assert(newest_keys(crate::update::entry_keys(n.entries), cap) =~= n.seen_keys);
    }
}

/// Making sure of a feed twice is making sure of it once.
pub proof fn law_ensure_idempotent(feeds: Seq<(Seq<char>, FeedRecord)>, url: Seq<char>, cap: nat)
    requires
        keys_distinct(feeds),
    ensures
        ensure_spec(ensure_spec(feeds, url, cap), url, cap) == ensure_spec(feeds, url, cap),
{
    law_ensure_feed_shape(feeds, url, cap);
    let f1 = ensure_spec(feeds, url, cap);
    crate::update::lemma_ensure_has_key(feeds, url, cap);
    let i = if has_key(feeds, url) { key_pos(feeds, url) } else { feeds.len() as int };
    assert(f1[i].0 == url);
    let j = key_pos(f1, url);
    assert(j == i);
    let old_feed = if has_key(feeds, url) { feeds[i].1 } else { fresh_feed(url) };
    lemma_normalize_idempotent(old_feed, url, cap);
    assert(f1[i].1 == crate::update::normalize_feed(old_feed, url, cap));
    assert(f1.update(i, (url, crate::update::normalize_feed(f1[i].1, url, cap))) =~= f1);
}

/// Keeping the first feed per key keeps everything when no key repeats.
proof fn lemma_keep_first_distinct(acc: Seq<(Seq<char>, FeedRecord)>, rest: Seq<(Seq<char>, FeedRecord)>)
    requires
        keys_distinct(acc + rest),
    ensures
        crate::store::keep_first_per_key(acc, rest) == acc + rest,
    decreases rest.len(),
{
    let all = acc + rest;
    if rest.len() > 0 {
        assert(!has_key(acc, rest[0].0)) by {
            if has_key(acc, rest[0].0) {
                let a = choose|a: int| 0 <= a < acc.len() && #[trigger] acc[a].0 == rest[0].0;
                assert(all[a].0 == all[acc.len() as int].0);
            }
        }
        let acc2 = acc.push(rest[0]);
        assert(acc2 + rest.drop_first() =~= all);
        lemma_keep_first_distinct(acc2, rest.drop_first());
    } else {
        assert(acc + rest =~= acc);
    }
}

/// A loaded state of the current version whose keys are distinct (as those
/// of a stored map are) is kept exactly as it was read.
pub proof fn law_loaded_state_kept(feeds: Seq<(Seq<char>, FeedRecord)>)
    requires
        keys_distinct(feeds),
    ensures
        crate::store::keep_first_per_key(seq![], feeds) == feeds,
{
    let empty: Seq<(Seq<char>, FeedRecord)> = seq![];
    assert(empty + feeds =~= feeds);
    lemma_keep_first_distinct(empty, feeds);
}

/// An update reports a change exactly when the stored entries or the title
/// differ afterwards; in particular every update that stores a new entry
/// reports a change.
pub proof fn law_update_changed_flag(fs: FeedRecord, doc: FeedDocumentRecord, cap: nat, max: nat)
    ensures
        update_changes(fs, doc, cap, max) <==> (updated_feed(fs, doc, cap, max).entries != fs.entries
            || updated_feed(fs, doc, cap, max).title != fs.title),
        updated_feed(fs, doc, cap, max).entries.len() > fs.entries.len() ==> update_changes(fs, doc, cap, max),
{
    let u = updated_feed(fs, doc, cap, max);
    let picked = feed_scan(fs, doc, cap, max).1;
    let pv = crate::update::picked_views(doc, picked);
    assert(u.entries == pv + fs.entries);
    assert(pv.len() == picked.len());
    if picked.len() == 0 {
        assert(pv + fs.entries =~= fs.entries);
    } else {
        assert(u.entries.len() != fs.entries.len());
    }
}

/// The entries a feed shows are exactly those the mode lets through (all,
/// only unread, or only read) whose lowercase title or lowercase link holds
/// the trimmed, lowercased search text, or all of those when that text is
/// empty.
pub proof fn law_search_matches_title_or_link(
    feeds: Seq<(Seq<char>, FeedRecord)>,
    order: Seq<int>,
    index: int,
    st: crate::tui::TuiRecord,
    p: int,
)
    ensures
        ({
            let es = crate::tui::listed_entries(feeds, order, index);
            let q = crate::text::lowercase(crate::text::trim_spec(st.search_query));
            crate::tui::visible_entries(feeds, order, index, st).contains(p) <==> {
                &&& 0 <= p < es.len()
                &&& (st.sort_mode == crate::tui::SortMode::UnreadOnly ==> !es[p].is_read)
                &&& (st.sort_mode == crate::tui::SortMode::ReadOnly ==> es[p].is_read)
                &&& (q.len() == 0 || (exists|k: int|
                    0 <= k && k + q.len() <= crate::text::lowercase(es[p].title).len()
                        && #[trigger] crate::text::lowercase(es[p].title).subrange(k, k + q.len()) == q) || (exists|k: int|
                    0 <= k && k + q.len() <= crate::text::lowercase(es[p].link).len()
                        && #[trigger] crate::text::lowercase(es[p].link).subrange(k, k + q.len()) == q))
            }
        }),
{
    law_visible_entries(feeds, order, index, st);
}

/// Every character of `s` is whitespace, so nothing is left once the
/// leading whitespace is gone.
proof fn lemma_all_whitespace_trims_away(s: Seq<char>)
    requires
        forall|k: int| 0 <= k < s.len() ==> crate::text::unicode_whitespace(#[trigger] s[k]),
    ensures
        crate::text::trim_start_spec(s).len() == 0,
        crate::text::trim_spec(s).len() == 0,
    decreases s.len(),
{
    if s.len() > 0 {
        let rest = s.drop_first();
        assert forall|k: int| 0 <= k < rest.len() implies crate::text::unicode_whitespace(#[trigger] rest[k]) by {
            assert(rest[k] == s[k + 1]);
        }
        assert(crate::text::unicode_whitespace(s[0]));
        lemma_all_whitespace_trims_away(rest);
    }
    let t = crate::text::trim_start_spec(s);
    assert(crate::text::trim_end_spec(t) =~= t);
}

/// A feeds-file line holding only whitespace, or whose first character
/// after the leading whitespace is `#`, adds no feed and reports no error:
/// the lines read as if it were absent.
pub proof fn law_blank_and_comment_lines_skipped(lines: Seq<Seq<char>>, i: int)
    requires
        0 <= i < lines.len(),
        (forall|k: int| 0 <= k < lines[i].len() ==> crate::text::unicode_whitespace(#[trigger] lines[i][k]))
            || (crate::text::trim_spec(lines[i]).len() > 0 && crate::text::trim_spec(lines[i])[0] == '#'),
    ensures
        parse_lines_spec(lines, i) == parse_lines_spec(lines, i + 1),
{
    if forall|k: int| 0 <= k < lines[i].len() ==> crate::text::unicode_whitespace(#[trigger] lines[i][k]) {
        lemma_all_whitespace_trims_away(lines[i]);
    }
}

/// The header's entry count is the number of entry lines the screen shows,
/// out of all the selected feed's entries.
pub proof fn law_header_counts_shown_entries(app: crate::model::AppRecord, st: crate::tui::TuiRecord)
    ensures
        ({
            let s = crate::view::screen_spec(app, st);
            let order = crate::tui::feed_order(app.feeds);
            &&& s.entry_items.len() == crate::tui::visible_entries(app.feeds, order, st.feed_index as int, st).len()
            &&& s.header[2] == "  Entries: "@ + crate::text::decimal(s.entry_items.len()) + "/"@ + crate::text::decimal(
                crate::tui::listed_entries(app.feeds, order, st.feed_index as int).len(),
            )
        }),
{
}

/// Moving the selection by `delta` in a non-empty list lands `delta` places
/// away when that is inside the list, on the first item when it would go
/// before it, and on the last when it would go past it.
pub proof fn law_move_lands_delta_away(i: usize, len: nat, delta: int)
    requires
        i <= isize::MAX,
        0 < len <= isize::MAX + 1,
    ensures
        0 <= i + delta < len ==> crate::tui::moved_index(i, len, delta) == i + delta,
        i + delta < 0 ==> crate::tui::moved_index(i, len, delta) == 0,
        i + delta >= len ==> crate::tui::moved_index(i, len, delta) == len - 1,
{
}

} // verus!
