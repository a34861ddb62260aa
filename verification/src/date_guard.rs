//! Which fetched documents the feed parser can be handed: those in which no
//! short date text can end up with a dash as its fifth character right
//! after a character of several bytes.
//!
//! The check works on the raw bytes. It only clears documents whose
//! encoding keeps every ASCII byte as itself (UTF-8 or a Latin-1 family
//! label), and then looks at each place a dash can come from: a `-` byte,
//! an XML character reference `&#...;`, or a JSON escape `\u002d`. Such a
//! place is cleared when the four bytes before it are plain ASCII text or
//! quotes (so the two characters before the dash, if the text has them,
//! are single bytes, even where a line break pair in an attribute becomes
//! one space), or when at least two bytes of surely kept text follow it (so
//! the dash is not near the end of a seven-byte text).

use vstd::prelude::*;

verus! {

/// Bytes that open or close markup, a reference, an escape, a quoted value
/// or a character-data section: `"` `&` `'` `;` `<` `>` `[` `\` `]`.
pub open spec fn stop_byte(c: u8) -> bool {
    c == 0x22 || c == 0x26 || c == 0x27 || c == 0x3B || c == 0x3C || c == 0x3E || c == 0x5B || c == 0x5C || c == 0x5D
}

/// One ASCII character of running text, or a quote (which either is such
/// a character or opens the quoted value the text is in): not NUL and not
/// a stop byte other than a quote.
pub open spec fn plain_byte(c: u8) -> bool {
    0x01 <= c <= 0x7F && (c == 0x22 || c == 0x27 || !stop_byte(c))
}

/// A byte that keeps running text going: not NUL and not a stop byte.
pub open spec fn run_byte(c: u8) -> bool {
    c != 0 && !stop_byte(c)
}

/// A visible ASCII character of running text.
pub open spec fn graphic_byte(c: u8) -> bool {
    0x21 <= c <= 0x7E && !stop_byte(c)
}

/// The byte at `k` starts a character that is not whitespace and that takes
/// at least two bytes once the document is in UTF-8, whether it is read as
/// UTF-8 or as Latin-1.
pub open spec fn wide_mark(b: Seq<u8>, k: int) -> bool {
    0 <= k < b.len() && ((0xC3 <= b[k] <= 0xDF) || (0xE4 <= b[k] <= 0xF4) || (b[k] == 0xE3 && k + 1 < b.len()
        && b[k + 1] != 0x80))
}

/// Fewer than four bytes come before `p`, or the four bytes before `p` are
/// plain ASCII text or quotes and no backslash comes within the ten bytes
/// before `p`.
pub open spec fn head_clear(b: Seq<u8>, p: int) -> bool {
    p < 4 || ((forall|k: int| p - 4 <= k < p ==> plain_byte(#[trigger] b[k])) && (forall|k: int|
        p - 10 <= k < p && 0 <= k ==> #[trigger] b[k] != 0x5C))
}

/// Whether a mark at `k` shows two bytes of kept text after the character
/// that ends at `e`.
pub open spec fn tail_mark(b: Seq<u8>, e: int, k: int) -> bool {
    (k >= e + 2 && graphic_byte(b[k])) || wide_mark(b, k)
}

/// After the character ending at `e` the running text goes on, without a
/// stop or a NUL, to a mark that shows at least two more bytes of text
/// that trimming cannot remove.
pub open spec fn tail_clear(b: Seq<u8>, e: int) -> bool {
    exists|k: int|
        #![trigger b[k]]
        e < k < b.len() && (forall|j: int| e < j < k ==> run_byte(#[trigger] b[j])) && tail_mark(b, e, k)
}

/// An XML character reference starts at `p`.
pub open spec fn char_ref_at(b: Seq<u8>, p: int) -> bool {
    0 <= p && p + 1 < b.len() && b[p] == 0x26 && b[p + 1] == 0x23
}

/// A JSON escape of the dash, `\u002d` or `\u002D`, starts at `p`.
pub open spec fn json_dash_at(b: Seq<u8>, p: int) -> bool {
    0 <= p && p + 5 < b.len() && b[p] == 0x5C && b[p + 1] == 0x75 && b[p + 2] == 0x30 && b[p + 3] == 0x30 && b[p
        + 4] == 0x32 && (b[p + 5] == 0x64 || b[p + 5] == 0x44)
}

/// The reference starting at `p` ends at its first `;`, and the text after
/// it is cleared.
pub open spec fn ref_tail_clear(b: Seq<u8>, p: int) -> bool {
    exists|e: int|
        #![trigger b[e]]
        p + 1 < e < b.len() && b[e] == 0x3B && (forall|j: int| p < j < e ==> #[trigger] b[j] != 0x3B) && tail_clear(b, e)
}

/// The place `p` gives no dash, or the dash it may give is cleared.
pub open spec fn dash_clear(b: Seq<u8>, p: int) -> bool {
    if b[p] == 0x2D {
        head_clear(b, p) || tail_clear(b, p)
    } else if char_ref_at(b, p) {
        head_clear(b, p) || ref_tail_clear(b, p)
    } else if json_dash_at(b, p) {
        head_clear(b, p) || tail_clear(b, p + 5)
    } else {
        true
    }
}

/// How far the parser looks for an encoding declaration.
pub open spec fn decl_window(b: Seq<u8>) -> int {
    if b.len() < 512 {
        b.len() as int
    } else {
        512
    }
}

/// The bytes of `encoding=`.
pub open spec fn encoding_key() -> Seq<u8> {
    seq![0x65u8, 0x6Eu8, 0x63u8, 0x6Fu8, 0x64u8, 0x69u8, 0x6Eu8, 0x67u8, 0x3Du8]
}

/// `encoding=` stands at `i`, inside the declaration window.
pub open spec fn key_at(b: Seq<u8>, i: int) -> bool {
    0 <= i && i + 9 <= decl_window(b) && b.subrange(i, i + 9) == encoding_key()
}

/// An ASCII letter in lower case; other bytes unchanged.
pub open spec fn ascii_lower(c: u8) -> u8 {
    if 0x41 <= c <= 0x5A {
        (c + 32) as u8
    } else {
        c
    }
}

/// The label names UTF-8 or a Latin-1 family encoding: `utf-8`,
/// `iso-8859-1`, `windows-1252` or `us-ascii`, in any case.
pub open spec fn plain_label(l: Seq<u8>) -> bool {
    let m = l.map_values(|c: u8| ascii_lower(c));
    ||| m == seq![0x75u8, 0x74u8, 0x66u8, 0x2Du8, 0x38u8]
    ||| m == seq![0x69u8, 0x73u8, 0x6Fu8, 0x2Du8, 0x38u8, 0x38u8, 0x35u8, 0x39u8, 0x2Du8, 0x31u8]
    ||| m == seq![0x77u8, 0x69u8, 0x6Eu8, 0x64u8, 0x6Fu8, 0x77u8, 0x73u8, 0x2Du8, 0x31u8, 0x32u8, 0x35u8, 0x32u8]
    ||| m == seq![0x75u8, 0x73u8, 0x2Du8, 0x61u8, 0x73u8, 0x63u8, 0x69u8, 0x69u8]
}

/// After the `encoding=` at `i` comes a quote, a plain label and the same
/// quote, all inside the declaration window.
pub open spec fn declared_plain(b: Seq<u8>, i: int) -> bool {
    let q = i + 9;
    q < decl_window(b) && (b[q] == 0x22 || b[q] == 0x27) && exists|j: int|
        #![trigger b[j]]
        q < j < decl_window(b) && b[j] == b[q] && (forall|t: int| q < t < j ==> #[trigger] b[t] != b[q])
            && plain_label(b.subrange(q + 1, j))
}

/// The document starts with a UTF-16 byte order mark.
pub open spec fn wide_bom(b: Seq<u8>) -> bool {
    b.len() >= 2 && ((b[0] == 0xFF && b[1] == 0xFE) || (b[0] == 0xFE && b[1] == 0xFF))
}

/// The parser reads the document in an encoding that keeps every ASCII
/// byte as itself: no UTF-16 byte order mark, and either no `encoding=` in
/// the first 512 bytes or a plain label after the first one.
pub open spec fn plain_encoding(b: Seq<u8>) -> bool {
    !wide_bom(b) && ((forall|i: int| !#[trigger] key_at(b, i)) || exists|i: int|
        #[trigger] key_at(b, i) && (forall|h: int| 0 <= h < i ==> !#[trigger] key_at(b, h)) && declared_plain(b, i))
}

/// The document is cleared for the feed parser.
pub open spec fn dates_cleared(b: Seq<u8>) -> bool {
    plain_encoding(b) && forall|p: int| 0 <= p < b.len() ==> #[trigger] dash_clear(b, p)
}

fn is_stop(c: u8) -> (r: bool)
    ensures
        r == stop_byte(c),
{
    c == 0x22 || c == 0x26 || c == 0x27 || c == 0x3B || c == 0x3C || c == 0x3E || c == 0x5B || c == 0x5C || c == 0x5D
}

fn is_wide_mark(b: &[u8], k: usize) -> (r: bool)
    requires
        k < b.len(),
    ensures
        r == wide_mark(b@, k as int),
{
    let c = b[k];
    (0xC3 <= c && c <= 0xDF) || (0xE4 <= c && c <= 0xF4) || (c == 0xE3 && k + 1 < b.len() && b[k + 1] != 0x80)
}

/// Whether the text after the character ending at `e` is cleared.
fn tail_is_clear(b: &[u8], e: usize) -> (r: bool)
    requires
        e < b.len(),
    ensures
        r == tail_clear(b@, e as int),
{
    let mut k: usize = e + 1;
    while k < b.len()
        invariant
            e < k <= b.len(),
            forall|j: int| e < j < k ==> run_byte(#[trigger] b@[j]),
            forall|j: int| e < j < k ==> !tail_mark(b@, e as int, j),
        decreases b.len() - k,
    {
        let c = b[k];
        let graphic = 0x21 <= c && c <= 0x7E && !is_stop(c);
        if (k >= e + 2 && graphic) || is_wide_mark(b, k) {
            assert(tail_mark(b@, e as int, k as int));
            assert(b@[k as int] == c);
            return true;
        }
        if c == 0 || is_stop(c) {
            assert(!tail_clear(b@, e as int)) by {
                assert forall|m: int| e < m < b@.len() && (forall|j: int| e < j < m ==> run_byte(#[trigger] b@[j]))
                    implies !tail_mark(b@, e as int, m) by {
                    if m > k {
                        assert(run_byte(b@[k as int]));
                    }
                }
            }
            return false;
        }
        k += 1;
    }
    false
}

/// Whether the four bytes before `p` are plain text with no backslash in
/// the ten before it.
fn head_is_clear(b: &[u8], p: usize) -> (r: bool)
    requires
        p <= b.len(),
    ensures
        r == head_clear(b@, p as int),
{
    if p < 4 {
        return true;
    }
    let mut k: usize = p - 4;
    while k < p
        invariant
            p >= 4,
            p - 4 <= k <= p,
            p <= b.len(),
            forall|j: int| p - 4 <= j < k ==> plain_byte(#[trigger] b@[j]),
        decreases p - k,
    {
        let c = b[k];
        if !(0x01 <= c && c <= 0x7F && (c == 0x22 || c == 0x27 || !is_stop(c))) {
            assert(!plain_byte(b@[k as int]));
            return false;
        }
        k += 1;
    }
    let mut s: usize = if p >= 10 { p - 10 } else { 0 };
    while s < p
        invariant
            p >= 4,
            s <= p,
            p <= b.len(),
            forall|j: int| p - 4 <= j < p ==> plain_byte(#[trigger] b@[j]),
            p >= 10 ==> s >= p - 10,
            forall|j: int| p - 10 <= j < s && 0 <= j ==> #[trigger] b@[j] != 0x5C,
        decreases p - s,
    {
        if b[s] == 0x5C {
            assert(b@[s as int] == 0x5C);
            return false;
        }
        s += 1;
    }
    true
}

/// Whether the reference starting at `p` ends at a `;` followed by cleared
/// text.
fn ref_tail_is_clear(b: &[u8], p: usize) -> (r: bool)
    requires
        p + 1 < b.len(),
        b@[p + 1] == 0x23,
    ensures
        r == ref_tail_clear(b@, p as int),
{
    let mut e: usize = p + 2;
    while e < b.len()
        invariant
            p + 2 <= e <= b.len(),
            b@[p + 1] == 0x23,
            forall|j: int| p < j < e ==> #[trigger] b@[j] != 0x3B,
        decreases b.len() - e,
    {
        if b[e] == 0x3B {
            let r = tail_is_clear(b, e);
            assert(r == ref_tail_clear(b@, p as int)) by {
                if r {
                    assert(b@[e as int] == 0x3B);
                } else {
                    assert forall|f: int| p + 1 < f < b@.len() && b@[f] == 0x3B && (forall|j: int| p < j < f ==> #[trigger] b@[j] != 0x3B)
                        implies !tail_clear(b@, f) by {
                        if f > e {
                            assert(b@[e as int] == 0x3B);
                        }
                    }
                }
            }
            return r;
        }
        e += 1;
    }
    assert(!ref_tail_clear(b@, p as int));
    false
}

/// Whether the place `p` gives no dash or a cleared one.
fn dash_is_clear(b: &[u8], p: usize) -> (r: bool)
    requires
        p < b.len(),
    ensures
        r == dash_clear(b@, p as int),
{
    let c = b[p];
    if c == 0x2D {
        head_is_clear(b, p) || tail_is_clear(b, p)
    } else if c == 0x26 && p + 1 < b.len() && b[p + 1] == 0x23 {
        head_is_clear(b, p) || ref_tail_is_clear(b, p)
    } else if c == 0x5C && b.len() - p > 5 && b[p + 1] == 0x75 && b[p + 2] == 0x30 && b[p + 3] == 0x30 && b[p + 4]
        == 0x32 && (b[p + 5] == 0x64 || b[p + 5] == 0x44) {
        head_is_clear(b, p) || tail_is_clear(b, p + 5)
    } else {
        true
    }
}

/// Whether `encoding=` stands at `i` inside the declaration window.
fn key_is_at(b: &[u8], i: usize, window: usize) -> (r: bool)
    requires
        window as int == decl_window(b@),
    ensures
        r == key_at(b@, i as int),
{
    if i > window || window - i < 9 {
        return false;
    }
    let key: [u8; 9] = [0x65, 0x6E, 0x63, 0x6F, 0x64, 0x69, 0x6E, 0x67, 0x3D];
    assert(key@ == encoding_key());
    let mut t: usize = 0;
    while t < 9
        invariant
            t <= 9,
            i + 9 <= window,
            window <= b.len(),
            key@ == encoding_key(),
            forall|u: int| 0 <= u < t ==> #[trigger] b@[i + u] == key@[u],
        decreases 9 - t,
    {
        if b[i + t] != key[t] {
            assert(b@.subrange(i as int, i + 9)[t as int] != encoding_key()[t as int]);
            return false;
        }
        t += 1;
    }
    assert forall|u: int| 0 <= u < 9 implies #[trigger] b@.subrange(i as int, i + 9)[u] == encoding_key()[u] by {
        assert(b@[i + u] == key@[u]);
    }
    assert(b@.subrange(i as int, i + 9) =~= encoding_key());
    true
}

/// Whether the bytes `b[from..to]`, in lower case, equal `want`.
fn lower_equals(b: &[u8], from: usize, to: usize, want: &[u8]) -> (r: bool)
    requires
        from <= to <= b.len(),
    ensures
        r == (b@.subrange(from as int, to as int).map_values(|c: u8| ascii_lower(c)) == want@),
{
    let ghost m = b@.subrange(from as int, to as int).map_values(|c: u8| ascii_lower(c));
    if to - from != want.len() {
        assert(m.len() != want@.len());
        return false;
    }
    let mut t: usize = 0;
    while t < want.len()
        invariant
            t <= want.len(),
            from <= to <= b.len(),
            to - from == want.len(),
            m == b@.subrange(from as int, to as int).map_values(|c: u8| ascii_lower(c)),
            forall|u: int| 0 <= u < t ==> #[trigger] m[u] == want@[u],
        decreases want.len() - t,
    {
        let c = b[from + t];
        let low: u8 = if 0x41 <= c && c <= 0x5A { c + 32 } else { c };
        assert(m[t as int] == ascii_lower(b@[from + t]));
        if low != want[t] {
            return false;
        }
        t += 1;
    }
    assert(m =~= want@);
    true
}

/// Whether the label between `from` and `to` is a plain one.
fn label_is_plain(b: &[u8], from: usize, to: usize) -> (r: bool)
    requires
        from <= to <= b.len(),
    ensures
        r == plain_label(b@.subrange(from as int, to as int)),
{
    let utf8: [u8; 5] = [0x75, 0x74, 0x66, 0x2D, 0x38];
    let latin1: [u8; 10] = [0x69, 0x73, 0x6F, 0x2D, 0x38, 0x38, 0x35, 0x39, 0x2D, 0x31];
    let windows: [u8; 12] = [0x77, 0x69, 0x6E, 0x64, 0x6F, 0x77, 0x73, 0x2D, 0x31, 0x32, 0x35, 0x32];
    let ascii: [u8; 8] = [0x75, 0x73, 0x2D, 0x61, 0x73, 0x63, 0x69, 0x69];
    assert(utf8@ =~= seq![0x75u8, 0x74u8, 0x66u8, 0x2Du8, 0x38u8]);
    assert(latin1@ =~= seq![0x69u8, 0x73u8, 0x6Fu8, 0x2Du8, 0x38u8, 0x38u8, 0x35u8, 0x39u8, 0x2Du8, 0x31u8]);
    assert(windows@ =~= seq![0x77u8, 0x69u8, 0x6Eu8, 0x64u8, 0x6Fu8, 0x77u8, 0x73u8, 0x2Du8, 0x31u8, 0x32u8, 0x35u8, 0x32u8]);
    assert(ascii@ =~= seq![0x75u8, 0x73u8, 0x2Du8, 0x61u8, 0x73u8, 0x63u8, 0x69u8, 0x69u8]);
    lower_equals(b, from, to, utf8.as_slice()) || lower_equals(b, from, to, latin1.as_slice()) || lower_equals(
        b,
        from,
        to,
        windows.as_slice(),
    ) || lower_equals(b, from, to, ascii.as_slice())
}

/// Whether the declaration after the `encoding=` at `i` names a plain
/// encoding.
fn declared_is_plain(b: &[u8], i: usize, window: usize) -> (r: bool)
    requires
        window as int == decl_window(b@),
        i + 9 <= window,
    ensures
        r == declared_plain(b@, i as int),
{
    let q = i + 9;
    if q >= window {
        return false;
    }
    let quote = b[q];
    if quote != 0x22 && quote != 0x27 {
        return false;
    }
    let mut j: usize = q + 1;
    while j < window
        invariant
            q < j <= window,
            window <= b.len(),
            window as int == decl_window(b@),
            q == i + 9,
            quote == b@[q as int],
            quote == 0x22 || quote == 0x27,
            forall|t: int| q < t < j ==> #[trigger] b@[t] != quote,
        decreases window - j,
    {
        if b[j] == quote {
            let r = label_is_plain(b, q + 1, j);
            assert(r == declared_plain(b@, i as int)) by {
                if !r {
                    assert forall|j2: int| q < j2 < decl_window(b@) && b@[j2] == b@[q as int] && (forall|t: int| q < t < j2 ==> #[trigger] b@[t] != b@[q as int])
                        implies !plain_label(b@.subrange(q + 1, j2)) by {
                        if j2 > j {
                            assert(b@[j as int] == quote);
                        }
                    }
                } else {
                    assert(b@[j as int] == quote);
                }
            }
            return r;
        }
        j += 1;
    }
    false
}

/// Whether the parser reads `b` in an encoding that keeps ASCII bytes.
fn encoding_is_plain(b: &[u8]) -> (r: bool)
    ensures
        r == plain_encoding(b@),
{
    if b.len() >= 2 && ((b[0] == 0xFF && b[1] == 0xFE) || (b[0] == 0xFE && b[1] == 0xFF)) {
        return false;
    }
    let window: usize = if b.len() < 512 { b.len() } else { 512 };
    let mut i: usize = 0;
    while i < window
        invariant
            window as int == decl_window(b@),
            !wide_bom(b@),
            forall|h: int| 0 <= h < i ==> !#[trigger] key_at(b@, h),
        decreases window - i,
    {
        if key_is_at(b, i, window) {
            let r = declared_is_plain(b, i, window);
            assert(r == plain_encoding(b@)) by {
                assert(key_at(b@, i as int));
                if !r {
                    assert forall|i2: int| #[trigger] key_at(b@, i2) && (forall|h: int| 0 <= h < i2 ==> !#[trigger] key_at(b@, h))
                        implies !declared_plain(b@, i2) by {
                        if i2 > i {
                            assert(key_at(b@, i as int));
                        }
                    }
                }
            }
            return r;
        }
        i += 1;
    }
    assert forall|h: int| !#[trigger] key_at(b@, h) by {
        if h >= i {
        }
    }
    true
}

/// Whether the feed parser can be handed `bytes`: the encoding keeps ASCII
/// bytes as themselves and every place that may give a dash is cleared.
pub fn dates_safe(bytes: &[u8]) -> (r: bool)
    ensures
        r == dates_cleared(bytes@),
{
    if !encoding_is_plain(bytes) {
        return false;
    }
    let mut p: usize = 0;
    while p < bytes.len()
        invariant
            p <= bytes.len(),
            plain_encoding(bytes@),
            forall|q: int| 0 <= q < p ==> #[trigger] dash_clear(bytes@, q),
        decreases bytes.len() - p,
    {
        if !dash_is_clear(bytes, p) {
            assert(!dash_clear(bytes@, p as int));
            return false;
        }
        p += 1;
    }
    true
}

} // verus!
