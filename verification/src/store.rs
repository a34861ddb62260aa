//! Accepting a state read back from disk.

use vstd::prelude::*;
use crate::model::{AppState, FeedRecord, FeedState, STATE_VERSION, feed_records, has_key, keys_distinct};

verus! {

/// `acc` followed by each feed of `rest` whose key is not stored yet.
pub open spec fn keep_first_per_key(
    acc: Seq<(Seq<char>, FeedRecord)>,
    rest: Seq<(Seq<char>, FeedRecord)>,
) -> Seq<(Seq<char>, FeedRecord)>
    decreases rest.len(),
{
    if rest.len() == 0 {
        acc
    } else {
        keep_first_per_key(if has_key(acc, rest[0].0) { acc } else { acc.push(rest[0]) }, rest.drop_first())
    }
}

/// Checks a state read back from disk: one of another format version is
/// refused, with the version it has; otherwise it is kept, with the first
/// feed stored under each key.
pub fn check_loaded_state(loaded: AppState) -> (r: Result<AppState, u32>)
    ensures
        match r {
            Ok(s) => {
                &&& loaded.version == STATE_VERSION
                &&& s@.version == STATE_VERSION
                &&& s@.feeds == keep_first_per_key(seq![], loaded@.feeds)
                &&& s@.wf()
            },
            Err(v) => loaded.version != STATE_VERSION && v == loaded.version,
        },
{
    if loaded.version != STATE_VERSION {
        return Err(loaded.version);
    }
    let ghost all = loaded@.feeds;
    let mut kept: Vec<(String, FeedState)> = Vec::new();
    let mut rest = loaded.feeds;
    assert(feed_records(kept@) =~= Seq::<(Seq<char>, FeedRecord)>::empty());
    while rest.len() > 0
        invariant
            keys_distinct(feed_records(kept@)),
            keep_first_per_key(seq![], all) == keep_first_per_key(feed_records(kept@), feed_records(rest@)),
        decreases rest.len(),
    {
        let ghost before = feed_records(kept@);
        let ghost rest_before = feed_records(rest@);
        let (key, fs) = rest.remove(0);
        assert(feed_records(rest@) == rest_before.drop_first());
        assert(rest_before[0] == (key@, fs@));
        let mut found = false;
        let mut i: usize = 0;
        while i < kept.len()
            invariant
                i <= kept.len(),
                feed_records(kept@) == before,
                found == exists|j: int| 0 <= j < i && #[trigger] before[j].0 == key@,
            decreases kept.len() - i,
        {
            if crate::text::same_text(kept[i].0.as_str(), key.as_str()) {
                assert(before[i as int].0 == key@);
                found = true;
            }
            i += 1;
        }
        if !found {
            kept.push((key, fs));
            assert(feed_records(kept@) == before.push(rest_before[0]));
            assert(keys_distinct(feed_records(kept@))) by {
                let now = feed_records(kept@);
                assert forall|a: int, b: int| 0 <= a < now.len() && 0 <= b < now.len() && a != b implies #[trigger] now[a].0 != #[trigger] now[b].0 by {
                    if a < before.len() && b < before.len() {
                        assert(before[a].0 != before[b].0);
                    } else if a < before.len() {
                        assert(now[a].0 == before[a].0);
                    } else {
                        assert(now[b].0 == before[b].0);
                    }
                }
            }
        }
    }
    assert(feed_records(rest@) =~= Seq::<(Seq<char>, FeedRecord)>::empty());
    Ok(AppState { version: STATE_VERSION, feeds: kept })
}

} // verus!
