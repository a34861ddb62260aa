//! Ordering text and sorting positions stably by text keys.

use vstd::prelude::*;

verus! {

/// Whether `a` comes strictly before `b` in the lexicographic order of
/// their characters (the order of `String` comparison: UTF-8 byte order
/// agrees with code-point order).
pub open spec fn text_lt(a: Seq<char>, b: Seq<char>) -> bool
    decreases a.len(),
{
    if a.len() == 0 {
        b.len() > 0
    } else if b.len() == 0 {
        false
    } else if (a[0] as int) < (b[0] as int) {
        true
    } else if a[0] == b[0] {
        text_lt(a.drop_first(), b.drop_first())
    } else {
        false
    }
}

/// Whether `a` comes strictly before `b`.
pub fn text_less(a: &Vec<char>, b: &Vec<char>) -> (r: bool)
    ensures
        r == text_lt(a@, b@),
{
    let mut i: usize = 0;
    assert(a@.skip(0) == a@ && b@.skip(0) == b@);
    while i < a.len() && i < b.len()
        invariant
            i <= a.len(),
            i <= b.len(),
            text_lt(a@, b@) == text_lt(a@.skip(i as int), b@.skip(i as int)),
        decreases a.len() - i,
    {
        let x = a[i];
        let y = b[i];
        assert(a@.skip(i as int)[0] == x && b@.skip(i as int)[0] == y);
        if x < y {
            return true;
        }
        if x != y {
            return false;
        }
        assert(a@.skip(i as int).drop_first() == a@.skip(i + 1));
        assert(b@.skip(i as int).drop_first() == b@.skip(i + 1));
        i += 1;
    }
    i == a.len() && i < b.len()
}

/// Whether item `x` goes before item `y` when sorting by `keys`, ascending
/// or, when `desc`, descending.
pub open spec fn goes_before(keys: Seq<Seq<char>>, desc: bool, x: int, y: int) -> bool {
    if desc {
        text_lt(keys[y], keys[x])
    } else {
        text_lt(keys[x], keys[y])
    }
}

/// `x` inserted into `s` before the first element it goes before.
pub open spec fn insert_stable(s: Seq<int>, x: int, keys: Seq<Seq<char>>, desc: bool) -> Seq<int>
    decreases s.len(),
{
    if s.len() == 0 {
        seq![x]
    } else if goes_before(keys, desc, x, s[0]) {
        seq![x] + s
    } else {
        seq![s[0]] + insert_stable(s.drop_first(), x, keys, desc)
    }
}

/// The stable sort of `xs` by `keys`: items with equal keys keep their order.
pub open spec fn stable_sort(xs: Seq<int>, keys: Seq<Seq<char>>, desc: bool) -> Seq<int>
    decreases xs.len(),
{
    if xs.len() == 0 {
        seq![]
    } else {
        insert_stable(stable_sort(xs.drop_last(), keys, desc), xs.last(), keys, desc)
    }
}

/// Inserting at the first position `p` that `x` goes before is [`insert_stable`].
proof fn lemma_insert_at(s: Seq<int>, x: int, keys: Seq<Seq<char>>, desc: bool, p: int)
    requires
        0 <= p <= s.len(),
        forall|j: int| 0 <= j < p ==> !goes_before(keys, desc, x, #[trigger] s[j]),
        p < s.len() ==> goes_before(keys, desc, x, s[p]),
    ensures
        insert_stable(s, x, keys, desc) == s.insert(p, x),
    decreases s.len(),
{
    if s.len() == 0 {
        assert(s.insert(p, x) =~= seq![x]);
    } else if p == 0 {
        assert(s.insert(0, x) =~= seq![x] + s);
    } else {
        assert(!goes_before(keys, desc, x, s[0]));
        let t = s.drop_first();
        assert forall|j: int| 0 <= j < p - 1 implies !goes_before(keys, desc, x, #[trigger] t[j]) by {
            assert(t[j] == s[j + 1]);
        }
        if p - 1 < t.len() {
            assert(t[p - 1] == s[p]);
        }
        lemma_insert_at(t, x, keys, desc, p - 1);
        assert(seq![s[0]] + t.insert(p - 1, x) =~= s.insert(p, x));
    }
}

/// The positions in `xs` sorted stably by `keys` (`keys[x]` is the key of `x`).
pub fn sort_by_keys(xs: &Vec<usize>, keys: &Vec<Vec<char>>, desc: bool) -> (r: Vec<usize>)
    requires
        forall|i: int| 0 <= i < xs.len() ==> #[trigger] xs@[i] < keys.len(),
    ensures
        r@.map_values(|x: usize| x as int) == stable_sort(
            xs@.map_values(|x: usize| x as int),
            keys@.map_values(|k: Vec<char>| k@),
            desc,
        ),
{
    let ghost ks = keys@.map_values(|k: Vec<char>| k@);
    let ghost xi = xs@.map_values(|x: usize| x as int);
    let mut out: Vec<usize> = Vec::new();
    let mut n: usize = 0;
    assert(out@.map_values(|x: usize| x as int) =~= stable_sort(xi.take(0), ks, desc));
    while n < xs.len()
        invariant
            n <= xs.len(),
            ks == keys@.map_values(|k: Vec<char>| k@),
            xi == xs@.map_values(|x: usize| x as int),
            forall|i: int| 0 <= i < xs.len() ==> #[trigger] xs@[i] < keys.len(),
            forall|i: int| 0 <= i < out.len() ==> #[trigger] out@[i] < keys.len(),
            out@.map_values(|x: usize| x as int) == stable_sort(xi.take(n as int), ks, desc),
        decreases xs.len() - n,
    {
        let x = xs[n];
        let mut p: usize = 0;
        let mut placed = false;
        while p < out.len() && !placed
            invariant
                p <= out.len(),
                x < keys.len(),
                ks == keys@.map_values(|k: Vec<char>| k@),
                forall|i: int| 0 <= i < out.len() ==> #[trigger] out@[i] < keys.len(),
                forall|j: int| 0 <= j < p ==> !goes_before(ks, desc, x as int, #[trigger] out@[j] as int),
                placed ==> p < out.len() && goes_before(ks, desc, x as int, out@[p as int] as int),
            decreases out.len() - p, if placed { 0int } else { 1int },
        {
            let y = out[p];
            let before = if desc {
                text_less(&keys[y], &keys[x])
            } else {
                text_less(&keys[x], &keys[y])
            };
            if before {
                placed = true;
            } else {
                p += 1;
            }
        }
        let ghost o = out@.map_values(|v: usize| v as int);
        proof {
            assert forall|j: int| 0 <= j < p implies !goes_before(ks, desc, x as int, #[trigger] o[j]) by {
                assert(o[j] == out@[j] as int);
            }
            if p < o.len() {
                assert(o[p as int] == out@[p as int] as int);
            }
            lemma_insert_at(o, x as int, ks, desc, p as int);
        }
        out.insert(p, x);
        assert(out@.map_values(|v: usize| v as int) =~= o.insert(p as int, x as int));
        assert(xi.take(n + 1).drop_last() =~= xi.take(n as int));
        assert(xi.take(n + 1).last() == x as int);
        n += 1;
    }
    assert(xi.take(xs.len() as int) =~= xi);
    out
}

/// Inserting adds one element.
pub proof fn lemma_insert_stable_len(s: Seq<int>, x: int, keys: Seq<Seq<char>>, desc: bool)
    ensures
        insert_stable(s, x, keys, desc).len() == s.len() + 1,
    decreases s.len(),
{
    if s.len() > 0 && !goes_before(keys, desc, x, s[0]) {
        lemma_insert_stable_len(s.drop_first(), x, keys, desc);
    }
}

/// Sorting keeps the number of items.
pub proof fn lemma_stable_sort_len(xs: Seq<int>, keys: Seq<Seq<char>>, desc: bool)
    ensures
        stable_sort(xs, keys, desc).len() == xs.len(),
    decreases xs.len(),
{
    if xs.len() > 0 {
        lemma_stable_sort_len(xs.drop_last(), keys, desc);
        lemma_insert_stable_len(stable_sort(xs.drop_last(), keys, desc), xs.last(), keys, desc);
    }
}

/// Inserting adds exactly the new item.
pub proof fn lemma_insert_stable_items(s: Seq<int>, x: int, keys: Seq<Seq<char>>, desc: bool)
    ensures
        insert_stable(s, x, keys, desc).to_multiset() == s.to_multiset().insert(x),
    decreases s.len(),
{
    broadcast use vstd::seq_lib::group_to_multiset_ensures;
    if s.len() == 0 {
        assert(seq![x] =~= Seq::<int>::empty().push(x));
    } else if goes_before(keys, desc, x, s[0]) {
        vstd::seq_lib::lemma_multiset_commutative(seq![x], s);
        assert(seq![x] =~= Seq::<int>::empty().push(x));
    } else {
        lemma_insert_stable_items(s.drop_first(), x, keys, desc);
        let t = insert_stable(s.drop_first(), x, keys, desc);
        vstd::seq_lib::lemma_multiset_commutative(seq![s[0]], t);
        vstd::seq_lib::lemma_multiset_commutative(seq![s[0]], s.drop_first());
        assert(seq![s[0]] + s.drop_first() =~= s);
        assert(seq![s[0]] =~= Seq::<int>::empty().push(s[0]));
    }
}

/// Sorting keeps exactly the items sorted: it permutes them.
pub proof fn lemma_stable_sort_items(xs: Seq<int>, keys: Seq<Seq<char>>, desc: bool)
    ensures
        stable_sort(xs, keys, desc).to_multiset() == xs.to_multiset(),
        forall|x: int| #[trigger] stable_sort(xs, keys, desc).contains(x) <==> xs.contains(x),
    decreases xs.len(),
{
    broadcast use vstd::seq_lib::group_to_multiset_ensures;
    if xs.len() > 0 {
        lemma_stable_sort_items(xs.drop_last(), keys, desc);
        lemma_insert_stable_items(stable_sort(xs.drop_last(), keys, desc), xs.last(), keys, desc);
        assert(xs.drop_last().push(xs.last()) =~= xs);
    }
    assert forall|x: int| #[trigger] stable_sort(xs, keys, desc).contains(x) <==> xs.contains(x) by {
        assert(stable_sort(xs, keys, desc).to_multiset().count(x) == xs.to_multiset().count(x));
    }
}

/// No text comes before itself.
pub proof fn lemma_text_lt_irreflexive(a: Seq<char>)
    ensures
        !text_lt(a, a),
    decreases a.len(),
{
    if a.len() > 0 {
        lemma_text_lt_irreflexive(a.drop_first());
    }
}

/// Of two texts at most one comes before the other.
pub proof fn lemma_text_lt_asymmetric(a: Seq<char>, b: Seq<char>)
    ensures
        text_lt(a, b) ==> !text_lt(b, a),
    decreases a.len(),
{
    if a.len() > 0 && b.len() > 0 && a[0] == b[0] {
        lemma_text_lt_asymmetric(a.drop_first(), b.drop_first());
    }
}

/// Coming before is transitive.
pub proof fn lemma_text_lt_transitive(a: Seq<char>, b: Seq<char>, c: Seq<char>)
    requires
        text_lt(a, b),
        text_lt(b, c),
    ensures
        text_lt(a, c),
    decreases a.len(),
{
    if a.len() > 0 && b.len() > 0 && c.len() > 0 && a[0] == b[0] && b[0] == c[0] {
        lemma_text_lt_transitive(a.drop_first(), b.drop_first(), c.drop_first());
    }
}

/// Of two different texts one comes before the other.
pub proof fn lemma_text_lt_total(a: Seq<char>, b: Seq<char>)
    ensures
        a != b ==> text_lt(a, b) || text_lt(b, a),
    decreases a.len(),
{
    if a.len() > 0 && b.len() > 0 {
        if a[0] == b[0] {
            lemma_text_lt_total(a.drop_first(), b.drop_first());
            if a.drop_first() == b.drop_first() {
                assert(a =~= seq![a[0]] + a.drop_first());
                assert(b =~= seq![b[0]] + b.drop_first());
            }
        } else {
            assert((a[0] as int) != (b[0] as int));
        }
    } else if a.len() == 0 && b.len() == 0 {
        assert(a =~= b);
    }
}

/// The items of `s` are in order: no item goes before one ahead of it.
pub open spec fn sorted_by(s: Seq<int>, keys: Seq<Seq<char>>, desc: bool) -> bool {
    forall|i: int, j: int| 0 <= i < j < s.len() ==> !goes_before(keys, desc, #[trigger] s[j], #[trigger] s[i])
}

/// Going before is transitive and asymmetric, for either direction.
proof fn lemma_goes_before_order(keys: Seq<Seq<char>>, desc: bool, x: int, y: int, z: int)
    ensures
        goes_before(keys, desc, x, y) ==> !goes_before(keys, desc, y, x),
        goes_before(keys, desc, x, y) && goes_before(keys, desc, y, z) ==> goes_before(keys, desc, x, z),
{
    lemma_text_lt_asymmetric(keys[x], keys[y]);
    lemma_text_lt_asymmetric(keys[y], keys[x]);
    if goes_before(keys, desc, x, y) && goes_before(keys, desc, y, z) {
        if desc {
            lemma_text_lt_transitive(keys[z], keys[y], keys[x]);
        } else {
            lemma_text_lt_transitive(keys[x], keys[y], keys[z]);
        }
    }
}

/// Inserting keeps exactly the old items and the new one.
proof fn lemma_insert_stable_contains(s: Seq<int>, x: int, keys: Seq<Seq<char>>, desc: bool)
    ensures
        forall|e: int| #[trigger] insert_stable(s, x, keys, desc).contains(e) <==> (e == x || s.contains(e)),
    decreases s.len(),
{
    lemma_insert_stable_items(s, x, keys, desc);
    broadcast use vstd::seq_lib::group_to_multiset_ensures;
    assert forall|e: int| #[trigger] insert_stable(s, x, keys, desc).contains(e) <==> (e == x || s.contains(e)) by {
        assert(insert_stable(s, x, keys, desc).to_multiset().count(e) == s.to_multiset().insert(x).count(e));
    }
}

/// Inserting into items in order keeps them in order.
proof fn lemma_insert_stable_sorted(s: Seq<int>, x: int, keys: Seq<Seq<char>>, desc: bool)
    requires
        sorted_by(s, keys, desc),
    ensures
        sorted_by(insert_stable(s, x, keys, desc), keys, desc),
    decreases s.len(),
{
    let r = insert_stable(s, x, keys, desc);
    if s.len() == 0 {
    } else if goes_before(keys, desc, x, s[0]) {
        assert forall|i: int, j: int| 0 <= i < j < r.len() implies !goes_before(keys, desc, #[trigger] r[j], #[trigger] r[i]) by {
            if i == 0 {
                let e = s[j - 1];
                assert(r[j] == e);
                lemma_goes_before_order(keys, desc, e, x, s[0]);
                if j - 1 > 0 {
                    assert(!goes_before(keys, desc, s[j - 1], s[0]));
                }
            } else {
                assert(r[i] == s[i - 1] && r[j] == s[j - 1]);
            }
        }
    } else {
        let rest = s.drop_first();
        assert(sorted_by(rest, keys, desc)) by {
            assert forall|i: int, j: int| 0 <= i < j < rest.len() implies !goes_before(keys, desc, #[trigger] rest[j], #[trigger] rest[i]) by {
                assert(rest[i] == s[i + 1] && rest[j] == s[j + 1]);
            }
        }
        lemma_insert_stable_sorted(rest, x, keys, desc);
        lemma_insert_stable_contains(rest, x, keys, desc);
        let t = insert_stable(rest, x, keys, desc);
        assert forall|i: int, j: int| 0 <= i < j < r.len() implies !goes_before(keys, desc, #[trigger] r[j], #[trigger] r[i]) by {
            if i == 0 {
                assert(r[i] == s[0]);
                assert(r[j] == t[j - 1]);
                assert(t.contains(t[j - 1]));
                if t[j - 1] != x {
                    let k = choose|k: int| 0 <= k < rest.len() && rest[k] == t[j - 1];
                    assert(s[k + 1] == rest[k]);
                }
            } else {
                assert(r[i] == t[i - 1] && r[j] == t[j - 1]);
            }
        }
    }
}

/// The stable sort puts the items in order.
pub proof fn lemma_stable_sort_sorted(xs: Seq<int>, keys: Seq<Seq<char>>, desc: bool)
    ensures
        sorted_by(stable_sort(xs, keys, desc), keys, desc),
    decreases xs.len(),
{
    if xs.len() > 0 {
        lemma_stable_sort_sorted(xs.drop_last(), keys, desc);
        lemma_insert_stable_sorted(stable_sort(xs.drop_last(), keys, desc), xs.last(), keys, desc);
    }
}

/// Items with equal keys appear in increasing order.
pub open spec fn stable_order(s: Seq<int>, keys: Seq<Seq<char>>) -> bool {
    forall|a: int, b: int| 0 <= a < b < s.len() && keys[s[a]] == keys[s[b]] ==> #[trigger] s[a] < #[trigger] s[b]
}

/// Inserting an item greater than all others keeps equal keys in increasing order.
proof fn lemma_insert_stable_stability(s: Seq<int>, x: int, keys: Seq<Seq<char>>, desc: bool)
    requires
        sorted_by(s, keys, desc),
        stable_order(s, keys),
        forall|k: int| 0 <= k < s.len() ==> #[trigger] s[k] < x,
    ensures
        stable_order(insert_stable(s, x, keys, desc), keys),
    decreases s.len(),
{
    let r = insert_stable(s, x, keys, desc);
    if s.len() == 0 {
    } else if goes_before(keys, desc, x, s[0]) {
        assert forall|a: int, b: int| 0 <= a < b < r.len() && keys[r[a]] == keys[r[b]] implies #[trigger] r[a] < #[trigger] r[b] by {
            if a == 0 {
                let e = s[b - 1];
                assert(r[b] == e);
                assert(goes_before(keys, desc, e, s[0]));
                if b - 1 == 0 {
                    lemma_text_lt_irreflexive(keys[s[0]]);
                } else {
                    assert(!goes_before(keys, desc, s[b - 1], s[0]));
                }
            } else {
                assert(r[a] == s[a - 1] && r[b] == s[b - 1]);
            }
        }
    } else {
        let rest = s.drop_first();
        assert(sorted_by(rest, keys, desc)) by {
            assert forall|i: int, j: int| 0 <= i < j < rest.len() implies !goes_before(keys, desc, #[trigger] rest[j], #[trigger] rest[i]) by {
                assert(rest[i] == s[i + 1] && rest[j] == s[j + 1]);
            }
        }
        assert(stable_order(rest, keys)) by {
            assert forall|i: int, j: int| 0 <= i < j < rest.len() && keys[rest[i]] == keys[rest[j]] implies #[trigger] rest[i] < #[trigger] rest[j] by {
                assert(rest[i] == s[i + 1] && rest[j] == s[j + 1]);
            }
        }
        assert forall|k: int| 0 <= k < rest.len() implies #[trigger] rest[k] < x by {
            assert(rest[k] == s[k + 1]);
        }
        lemma_insert_stable_stability(rest, x, keys, desc);
        lemma_insert_stable_contains(rest, x, keys, desc);
        let t = insert_stable(rest, x, keys, desc);
        assert forall|a: int, b: int| 0 <= a < b < r.len() && keys[r[a]] == keys[r[b]] implies #[trigger] r[a] < #[trigger] r[b] by {
            if a == 0 {
                assert(r[a] == s[0]);
                assert(r[b] == t[b - 1]);
                assert(t.contains(t[b - 1]));
                if t[b - 1] != x {
                    let k = choose|k: int| 0 <= k < rest.len() && rest[k] == t[b - 1];
                    assert(s[k + 1] == rest[k]);
                    assert(s[0] < s[k + 1]);
                } else {
                    assert(s[0] < x);
                }
            } else {
                assert(r[a] == t[a - 1] && r[b] == t[b - 1]);
            }
        }
    }
}

/// Sorting increasing items stably keeps items with equal keys in
/// increasing order: ties keep the order they came in.
pub proof fn lemma_stable_sort_stable(xs: Seq<int>, keys: Seq<Seq<char>>, desc: bool)
    requires
        forall|a: int, b: int| 0 <= a < b < xs.len() ==> #[trigger] xs[a] < #[trigger] xs[b],
    ensures
        stable_order(stable_sort(xs, keys, desc), keys),
    decreases xs.len(),
{
    if xs.len() > 0 {
        let init = xs.drop_last();
        assert forall|a: int, b: int| 0 <= a < b < init.len() implies #[trigger] init[a] < #[trigger] init[b] by {
            assert(init[a] == xs[a] && init[b] == xs[b]);
        }
        lemma_stable_sort_stable(init, keys, desc);
        lemma_stable_sort_sorted(init, keys, desc);
        lemma_stable_sort_items(init, keys, desc);
        let so = stable_sort(init, keys, desc);
        assert forall|k: int| 0 <= k < so.len() implies #[trigger] so[k] < xs.last() by {
            assert(so.contains(so[k]));
            assert(init.contains(so[k]));
            let j = choose|j: int| 0 <= j < init.len() && init[j] == so[k];
            assert(xs[j] < xs[xs.len() - 1]);
        }
        lemma_insert_stable_stability(so, xs.last(), keys, desc);
    }
}

} // verus!
