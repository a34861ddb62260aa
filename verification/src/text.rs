//! Character-level helpers shared by the rest of the library.

use vstd::prelude::*;
use vstd::string::*;

verus! {

/// The ASCII digit for `d`, which must be below ten.
pub open spec fn digit_char(d: nat) -> char {
    ((48 + d) as u32) as char
}

/// Decimal notation of `n`, most significant digit first, without leading zeros.
pub open spec fn decimal(n: nat) -> Seq<char>
    decreases n,
{
    if n < 10 {
        seq![digit_char(n)]
    } else {
        decimal(n / 10) + seq![digit_char(n % 10)]
    }
}

/// Appends one character to a string.
#[verifier::external_body]
pub(crate) fn push_char(s: &mut String, c: char)
    ensures
        final(s)@ == old(s)@.push(c),
{
    s.push(c);
}

/// Writes `n` in decimal notation.
pub fn decimal_string(n: usize) -> (s: String)
    ensures
        s@ == decimal(n as nat),
    decreases n,
{
    if n < 10 {
        let mut s = String::new();
        let c = ((48u8 + n as u8) as char);
        push_char(&mut s, c);
        s
    } else {
        let mut s = decimal_string(n / 10);
        let d = n % 10;
        let c = ((48u8 + d as u8) as char);
        push_char(&mut s, c);
        s
    }
}


/// Whether `c` has the Unicode `White_Space` property, the set that
/// `char::is_whitespace` tests: tab through carriage return, space, next
/// line, no-break space, ogham space mark, the spaces from en quad to hair
/// space, line and paragraph separators, narrow no-break space, medium
/// mathematical space and ideographic space.
pub open spec fn unicode_whitespace(c: char) -> bool {
    let u = c as int;
    (0x09 <= u <= 0x0D) || u == 0x20 || u == 0x85 || u == 0xA0 || u == 0x1680 || (0x2000 <= u <= 0x200A)
        || u == 0x2028 || u == 0x2029 || u == 0x202F || u == 0x205F || u == 0x3000
}

/// `s` without its leading whitespace.
pub open spec fn trim_start_spec(s: Seq<char>) -> Seq<char>
    decreases s.len(),
{
    if s.len() > 0 && unicode_whitespace(s[0]) {
        trim_start_spec(s.drop_first())
    } else {
        s
    }
}

/// `s` without its trailing whitespace.
pub open spec fn trim_end_spec(s: Seq<char>) -> Seq<char>
    decreases s.len(),
{
    if s.len() > 0 && unicode_whitespace(s.last()) {
        trim_end_spec(s.drop_last())
    } else {
        s
    }
}

/// `s` without leading and trailing whitespace.
pub open spec fn trim_spec(s: Seq<char>) -> Seq<char> {
    trim_end_spec(trim_start_spec(s))
}

/// Whether `c` is whitespace, as `char::is_whitespace` decides.
pub fn is_whitespace(c: char) -> (r: bool)
    ensures
        r == unicode_whitespace(c),
{
    let u = c as u32;
    (0x09 <= u && u <= 0x0D) || u == 0x20 || u == 0x85 || u == 0xA0 || u == 0x1680 || (0x2000 <= u && u
        <= 0x200A) || u == 0x2028 || u == 0x2029 || u == 0x202F || u == 0x205F || u == 0x3000
}

/// The characters of `s`, in order.
pub fn chars_of(s: &str) -> (v: Vec<char>)
    ensures
        v@ == s@,
{
    let mut v: Vec<char> = Vec::new();
    for c in it: s.chars()
        invariant
            v@ == it.seq().take(it.index() as int),
    {
        v.push(c);
    }
    v
}

/// The lowercase mapping of `s` that `str::to_lowercase` computes (Unicode
/// case tables, with the final-sigma rule).
pub uninterp spec fn lowercase(s: Seq<char>) -> Seq<char>;

/// `str::to_lowercase`: its result is named `lowercase` of the input.
#[verifier::external_body]
pub(crate) fn to_lower(s: &str) -> (r: String)
    ensures
        r@ == lowercase(s@),
{
    s.to_lowercase()
}

/// Whether `p` occurs in `s` as a contiguous run of characters.
pub open spec fn has_substring(s: Seq<char>, p: Seq<char>) -> bool {
    exists|i: int| 0 <= i && i + p.len() <= s.len() && #[trigger] s.subrange(i, i + p.len()) == p
}

/// A line as `str::lines` yields it: one `\r` before the `\n` is dropped.
pub open spec fn strip_cr(line: Seq<char>) -> Seq<char> {
    if line.len() > 0 && line.last() == '\r' {
        line.drop_last()
    } else {
        line
    }
}

/// Splitting of `s` into lines, `cur` being the part of the current line seen so far.
pub open spec fn split_lines(s: Seq<char>, cur: Seq<char>) -> Seq<Seq<char>>
    decreases s.len(),
{
    if s.len() == 0 {
        if cur.len() == 0 {
            seq![]
        } else {
            seq![cur]
        }
    } else if s[0] == '\n' {
        seq![strip_cr(cur)] + split_lines(s.drop_first(), seq![])
    } else {
        split_lines(s.drop_first(), cur.push(s[0]))
    }
}

/// The lines of `s`: split at `\n` or `\r\n`, the final line ending optional.
pub open spec fn lines_spec(s: Seq<char>) -> Seq<Seq<char>> {
    split_lines(s, seq![])
}

/// The views of a sequence of strings.
pub open spec fn string_views(v: Seq<String>) -> Seq<Seq<char>> {
    v.map_values(|x: String| x@)
}

/// Whether `s` begins with the character `c`.
pub fn starts_with_char(s: &str, c: char) -> (r: bool)
    ensures
        r == (s@.len() > 0 && s@[0] == c),
{
    if s.is_empty() {
        false
    } else {
        s.get_char(0) == c
    }
}

/// A copy of `s`.
pub fn copy_str(s: &str) -> (r: String)
    ensures
        r@ == s@,
{
    String::from_str(s)
}

/// `a` followed by `b`.
pub fn join2(a: &str, b: &str) -> (r: String)
    ensures
        r@ == a@ + b@,
{
    let mut r = String::from_str(a);
    r.append(b);
    r
}

/// `a`, `b` and `c` one after another.
pub fn join3(a: &str, b: &str, c: &str) -> (r: String)
    ensures
        r@ == a@ + b@ + c@,
{
    let mut r = String::from_str(a);
    r.append(b);
    r.append(c);
    r
}

/// Whether two strings hold the same characters.
pub fn same_text(a: &str, b: &str) -> (r: bool)
    ensures
        r == (a@ == b@),
{
    let x = String::from_str(a);
    let y = String::from_str(b);
    x == y
}

/// A string holding the characters `cs[from..to]`.
pub fn string_of_chars(cs: &Vec<char>, from: usize, to: usize) -> (r: String)
    requires
        from <= to <= cs.len(),
    ensures
        r@ == cs@.subrange(from as int, to as int),
{
    let mut r = String::new();
    let mut k = from;
    while k < to
        invariant
            from <= k <= to <= cs.len(),
            r@ == cs@.subrange(from as int, k as int),
        decreases to - k,
    {
        push_char(&mut r, cs[k]);
        assert(cs@.subrange(from as int, k + 1) == cs@.subrange(from as int, k as int).push(cs@[k as int]));
        k += 1;
    }
    r
}

/// `s` with leading and trailing whitespace removed, as `str::trim` does.
pub fn trim(s: &str) -> (r: String)
    ensures
        r@ == trim_spec(s@),
{
    let cs = chars_of(s);
    let n = cs.len();
    let mut i: usize = 0;
    assert(s@.skip(0) == s@);
    while i < n && is_whitespace(cs[i])
        invariant
            i <= n == cs@.len(),
            cs@ == s@,
            trim_start_spec(s@) == trim_start_spec(s@.skip(i as int)),
        decreases n - i,
    {
        assert(s@.skip(i as int).drop_first() == s@.skip(i + 1));
        i += 1;
    }
    assert(trim_start_spec(s@) == s@.subrange(i as int, n as int));
    let mut j: usize = n;
    while j > i && is_whitespace(cs[j - 1])
        invariant
            i <= j <= n == cs@.len(),
            cs@ == s@,
            trim_spec(s@) == trim_end_spec(s@.subrange(i as int, j as int)),
        decreases j,
    {
        assert(s@.subrange(i as int, j as int).drop_last() == s@.subrange(i as int, j - 1));
        j -= 1;
    }
    string_of_chars(&cs, i, j)
}

/// Whether `p` occurs in `s` as a contiguous run of characters, as
/// `str::contains` decides for a string pattern.
pub fn contains_text(s: &str, p: &str) -> (r: bool)
    ensures
        r == has_substring(s@, p@),
{
    let sc = chars_of(s);
    let pc = chars_of(p);
    let n = sc.len();
    let m = pc.len();
    if m > n {
        assert(!has_substring(s@, p@));
        return false;
    }
    let mut i: usize = 0;
    while i <= n - m
        invariant
            sc@ == s@,
            pc@ == p@,
            n == sc@.len(),
            m == pc@.len(),
            m <= n,
            forall|k: int| 0 <= k < i ==> #[trigger] s@.subrange(k, k + m) != p@,
        decreases n - m + 1 - i,
    {
        let mut t: usize = 0;
        let mut same = true;
        while t < m
            invariant
                sc@ == s@,
                pc@ == p@,
                n == sc@.len(),
                m == pc@.len(),
                i + m <= n,
                t <= m,
                same == (forall|q: int| 0 <= q < t ==> sc@[i + q] == pc@[q]),
            decreases m - t,
        {
            if sc[i + t] != pc[t] {
                same = false;
            }
            t += 1;
        }
        if same {
            assert(s@.subrange(i as int, i + m) =~= p@);
            return true;
        } else {
            proof {
                let q = choose|q: int| 0 <= q < m && sc@[i + q] != pc@[q];
                assert(s@.subrange(i as int, i + m)[q] != p@[q]);
            }
        }
        i += 1;
    }
    assert forall|k: int| 0 <= k && k + p@.len() <= s@.len() implies #[trigger] s@.subrange(k, k + p@.len()) != p@ by {
        assert(k < i);
    }
    false
}

/// The lines of `s`, as `str::lines` yields them: split at `\n`, a `\r`
/// just before a `\n` dropped, the final line ending optional.
pub fn lines_of(s: &str) -> (r: Vec<String>)
    ensures
        string_views(r@) == lines_spec(s@),
{
    let cs = chars_of(s);
    let n = cs.len();
    let mut out: Vec<String> = Vec::new();
    let mut start: usize = 0;
    let mut k: usize = 0;
    assert(s@.skip(0) == s@);
    assert(s@.subrange(0, 0) =~= Seq::<char>::empty());
    assert(string_views(out@) =~= Seq::<Seq<char>>::empty());
    while k < n
        invariant
            cs@ == s@,
            n == cs@.len(),
            start <= k <= n,
            lines_spec(s@) == string_views(out@) + split_lines(s@.skip(k as int), s@.subrange(start as int, k as int)),
        decreases n - k,
    {
        let ghost cur = s@.subrange(start as int, k as int);
        assert(s@.skip(k as int).drop_first() == s@.skip(k + 1));
        assert(s@.skip(k as int)[0] == s@[k as int]);
        if cs[k] == '\n' {
            let line = if k > start && cs[k - 1] == '\r' {
                string_of_chars(&cs, start, k - 1)
            } else {
                string_of_chars(&cs, start, k)
            };
            assert(line@ == strip_cr(cur)) by {
                if k > start && cs@[k - 1] == '\r' {
                    assert(cur.drop_last() =~= s@.subrange(start as int, k - 1));
                }
            }
            let ghost prev = out@;
            out.push(line);
            assert(string_views(out@) == string_views(prev) + seq![strip_cr(cur)]);
            assert(s@.subrange((k + 1) as int, (k + 1) as int) =~= Seq::<char>::empty());
            k += 1;
            start = k;
        } else {
            assert(cur.push(s@[k as int]) =~= s@.subrange(start as int, k + 1));
            k += 1;
        }
    }
    assert(s@.skip(n as int) =~= Seq::<char>::empty());
    if start < n {
        let line = string_of_chars(&cs, start, n);
        let ghost prev = out@;
        out.push(line);
        assert(string_views(out@) == string_views(prev) + seq![line@]);
    } else {
        assert(s@.subrange(start as int, n as int) =~= Seq::<char>::empty());
    }
    out
}

} // verus!
