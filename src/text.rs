//! Character-level helpers shared by the parsers: line scanning, splitting,
//! trimming, and decimal reading and writing.

use vstd::prelude::*;
use vstd::string::*;

verus! {

/// The characters of `s`, one by one.
pub fn chars_of(s: &str) -> (v: Vec<char>)
    ensures
        v@ == s@,
{
    let n = s.unicode_len();
    let mut v: Vec<char> = Vec::new();
    let mut i: usize = 0;
    while i < n
        invariant
            n == s@.len(),
            i <= n,
            v@ == s@.subrange(0, i as int),
        decreases n - i,
    {
        v.push(s.get_char(i));
        i = i + 1;
        assert(v@ =~= s@.subrange(0, i as int));
    }
    assert(v@ =~= s@);
    v
}

/// Index of the first line feed at or after `i`, or the length when there is none.
pub open spec fn line_end(s: Seq<char>, i: int) -> int
    decreases s.len() - i,
{
    if i >= s.len() || s[i] == '\n' {
        i
    } else {
        line_end(s, i + 1)
    }
}

pub proof fn lemma_line_end(s: Seq<char>, i: int)
    requires
        0 <= i <= s.len(),
    ensures
        i <= line_end(s, i) <= s.len(),
        line_end(s, i) < s.len() ==> s[line_end(s, i)] == '\n',
        forall|k: int| i <= k < line_end(s, i) ==> s[k] != '\n',
    decreases s.len() - i,
{
    if i < s.len() && s[i] != '\n' {
        lemma_line_end(s, i + 1);
    }
}

/// End of the text of the line that starts at `i`: a carriage return just
/// before the line feed belongs to the line ending, not to the text.
pub open spec fn line_stop(s: Seq<char>, i: int) -> int {
    let e = line_end(s, i);
    if i < e && e < s.len() && s[e - 1] == '\r' {
        e - 1
    } else {
        e
    }
}

/// The text of the line that starts at `i`.
pub open spec fn line_at(s: Seq<char>, i: int) -> Seq<char> {
    s.subrange(i, line_stop(s, i))
}

/// Where the next line starts, after the line that starts at `i`; the
/// length when that line is the last one.
pub open spec fn next_line(s: Seq<char>, i: int) -> int {
    let e = line_end(s, i);
    if e < s.len() {
        e + 1
    } else {
        e
    }
}

/// Finds the end of the line that starts at `i`.
pub fn find_line_end(v: &Vec<char>, i: usize) -> (e: usize)
    requires
        i <= v@.len(),
    ensures
        e == line_end(v@, i as int),
{
    let mut j: usize = i;
    while j < v.len() && v[j] != '\n'
        invariant
            i <= j <= v@.len(),
            line_end(v@, i as int) == line_end(v@, j as int),
        decreases v@.len() - j,
    {
        j = j + 1;
    }
    j
}

/// Finds where the text of the line that starts at `i` ends, and where the
/// next line starts.
pub fn find_line(v: &Vec<char>, i: usize) -> (r: (usize, usize))
    requires
        i < v@.len(),
    ensures
        r.0 == line_stop(v@, i as int),
        r.1 == next_line(v@, i as int),
        i <= r.0 <= v@.len(),
        i < r.1 <= v@.len(),
{
    let e = find_line_end(v, i);
    proof {
        lemma_line_end(v@, i as int);
    }
    let next = if e < v.len() {
        e + 1
    } else {
        e
    };
    if i < e && e < v.len() && v[e - 1] == '\r' {
        (e - 1, next)
    } else {
        (e, next)
    }
}


/// Whether `c` has the Unicode White_Space property, as `char::is_whitespace` reads it.
pub open spec fn is_ws(c: char) -> bool {
    let u = c as u32;
    (0x09 <= u && u <= 0x0d) || u == 0x20 || u == 0x85 || u == 0xa0 || u == 0x1680
        || (0x2000 <= u && u <= 0x200a) || u == 0x2028 || u == 0x2029 || u == 0x202f
        || u == 0x205f || u == 0x3000
}

pub fn is_ws_exec(c: char) -> (r: bool)
    ensures
        r == is_ws(c),
{
    let u = c as u32;
    (0x09 <= u && u <= 0x0d) || u == 0x20 || u == 0x85 || u == 0xa0 || u == 0x1680 || (0x2000
        <= u && u <= 0x200a) || u == 0x2028 || u == 0x2029 || u == 0x202f || u == 0x205f || u
        == 0x3000
}

/// The characters that a trim removes: double quotes when `quotes`, else white space.
pub open spec fn strippable(c: char, quotes: bool) -> bool {
    if quotes {
        c == '"'
    } else {
        is_ws(c)
    }
}

pub open spec fn trim_start_by(s: Seq<char>, quotes: bool) -> Seq<char>
    decreases s.len(),
{
    if s.len() > 0 && strippable(s[0], quotes) {
        trim_start_by(s.drop_first(), quotes)
    } else {
        s
    }
}

pub open spec fn trim_end_by(s: Seq<char>, quotes: bool) -> Seq<char>
    decreases s.len(),
{
    if s.len() > 0 && strippable(s.last(), quotes) {
        trim_end_by(s.drop_last(), quotes)
    } else {
        s
    }
}

/// `s` without leading and trailing white space.
pub open spec fn trim(s: Seq<char>) -> Seq<char> {
    trim_end_by(trim_start_by(s, false), false)
}

/// `s` without leading and trailing double quotes.
pub open spec fn trim_quotes(s: Seq<char>) -> Seq<char> {
    trim_end_by(trim_start_by(s, true), true)
}

/// Narrows `lo..hi` to the trimmed part of that range.
pub fn trim_range(v: &Vec<char>, lo: usize, hi: usize, quotes: bool) -> (r: (usize, usize))
    requires
        lo <= hi <= v@.len(),
    ensures
        lo <= r.0 <= r.1 <= hi,
        v@.subrange(r.0 as int, r.1 as int) == trim_end_by(
            trim_start_by(v@.subrange(lo as int, hi as int), quotes),
            quotes,
        ),
{
    let mut a: usize = lo;
    loop
        invariant
            lo <= a <= hi <= v@.len(),
            trim_start_by(v@.subrange(lo as int, hi as int), quotes) == trim_start_by(
                v@.subrange(a as int, hi as int),
                quotes,
            ),
        ensures
            lo <= a <= hi,
            trim_start_by(v@.subrange(lo as int, hi as int), quotes) == v@.subrange(
                a as int,
                hi as int,
            ),
        decreases hi - a,
    {
        if a == hi {
            assert(v@.subrange(a as int, hi as int).len() == 0);
            break;
        }
        let c = v[a];
        let strip = if quotes {
            c == '"'
        } else {
            is_ws_exec(c)
        };
        if !strip {
            assert(v@.subrange(a as int, hi as int)[0] == c);
            break;
        }
        assert(v@.subrange(a as int, hi as int).drop_first() =~= v@.subrange(a + 1, hi as int));
        a = a + 1;
    }
    let mut b: usize = hi;
    loop
        invariant
            lo <= a <= b <= hi <= v@.len(),
            trim_start_by(v@.subrange(lo as int, hi as int), quotes) == v@.subrange(
                a as int,
                hi as int,
            ),
            trim_end_by(v@.subrange(a as int, hi as int), quotes) == trim_end_by(
                v@.subrange(a as int, b as int),
                quotes,
            ),
        ensures
            lo <= a <= b <= hi,
            trim_start_by(v@.subrange(lo as int, hi as int), quotes) == v@.subrange(
                a as int,
                hi as int,
            ),
            trim_end_by(v@.subrange(a as int, hi as int), quotes) == v@.subrange(
                a as int,
                b as int,
            ),
        decreases b - a,
    {
        if b == a {
            assert(v@.subrange(a as int, b as int).len() == 0);
            break;
        }
        let c = v[b - 1];
        let strip = if quotes {
            c == '"'
        } else {
            is_ws_exec(c)
        };
        if !strip {
            assert(v@.subrange(a as int, b as int).last() == c);
            break;
        }
        assert(v@.subrange(a as int, b as int).drop_last() =~= v@.subrange(a as int, b - 1));
        b = b - 1;
    }
    (a, b)
}

/// `p` is the first place in `s` where `c` stands.
pub open spec fn is_first(s: Seq<char>, c: char, p: int) -> bool {
    0 <= p < s.len() && s[p] == c && forall|k: int| 0 <= k < p ==> s[k] != c
}

/// `s` cut in two at the first `c`, which belongs to neither part; `None` when
/// `c` does not occur.
pub open spec fn split_once(s: Seq<char>, c: char) -> Option<(Seq<char>, Seq<char>)> {
    if exists|p: int| is_first(s, c, p) {
        let p = choose|p: int| is_first(s, c, p);
        Some((s.subrange(0, p), s.subrange(p + 1, s.len() as int)))
    } else {
        None
    }
}

/// Finds the first `c` in `lo..hi`.
pub fn find_char(v: &Vec<char>, lo: usize, hi: usize, c: char) -> (r: Option<usize>)
    requires
        lo <= hi <= v@.len(),
    ensures
        match r {
            Some(p) => lo <= p < hi && split_once(v@.subrange(lo as int, hi as int), c) == Some(
                (v@.subrange(lo as int, p as int), v@.subrange(p + 1, hi as int)),
            ),
            None => split_once(v@.subrange(lo as int, hi as int), c) is None,
        },
{
    let ghost sub = v@.subrange(lo as int, hi as int);
    let mut j: usize = lo;
    while j < hi
        invariant
            lo <= j <= hi <= v@.len(),
            sub == v@.subrange(lo as int, hi as int),
            forall|k: int| lo <= k < j ==> v@[k] != c,
        decreases hi - j,
    {
        if v[j] == c {
            proof {
                let p = j - lo;
                assert(is_first(sub, c, p));
                let q = choose|q: int| is_first(sub, c, q);
                assert(q == p) by {
                    if q < p {
                        assert(sub[q] != c);
                    }
                    if p < q {
                        assert(sub[p] != c);
                    }
                }
                assert(sub.subrange(0, p) =~= v@.subrange(lo as int, j as int));
                assert(sub.subrange(p + 1, sub.len() as int) =~= v@.subrange(j + 1, hi as int));
            }
            return Some(j);
        }
        j = j + 1;
    }
    assert forall|p: int| !is_first(sub, c, p) by {
        if 0 <= p < sub.len() {
            assert(sub[p] == v@[lo + p]);
        }
    }
    None
}

/// `p` is the first place in `s` where a white-space character stands.
pub open spec fn is_first_ws(s: Seq<char>, p: int) -> bool {
    0 <= p < s.len() && is_ws(s[p]) && forall|k: int| 0 <= k < p ==> !is_ws(s[k])
}

/// What precedes the first white-space character of `s`; `None` when there is none.
pub open spec fn first_token(s: Seq<char>) -> Option<Seq<char>> {
    if exists|p: int| is_first_ws(s, p) {
        let p = choose|p: int| is_first_ws(s, p);
        Some(s.subrange(0, p))
    } else {
        None
    }
}

/// Finds the first white-space character of `v`.
pub fn find_ws(v: &Vec<char>) -> (r: Option<usize>)
    ensures
        match r {
            Some(p) => p < v@.len() && first_token(v@) == Some(v@.subrange(0, p as int)),
            None => first_token(v@) is None,
        },
{
    let mut j: usize = 0;
    while j < v.len()
        invariant
            j <= v@.len(),
            forall|k: int| 0 <= k < j ==> !is_ws(v@[k]),
        decreases v@.len() - j,
    {
        if is_ws_exec(v[j]) {
            proof {
                assert(is_first_ws(v@, j as int));
                let q = choose|q: int| is_first_ws(v@, q);
                assert(q == j) by {
                    if q < j {
                        assert(!is_ws(v@[q]));
                    }
                    if j < q {
                        assert(!is_ws(v@[j as int]));
                    }
                }
            }
            return Some(j);
        }
        j = j + 1;
    }
    None
}

/// Whether `lo..hi` holds exactly the characters of `lit`.
pub fn range_equals(v: &Vec<char>, lo: usize, hi: usize, lit: &str) -> (r: bool)
    requires
        lo <= hi <= v@.len(),
    ensures
        r == (v@.subrange(lo as int, hi as int) == lit@),
{
    let n = lit.unicode_len();
    if hi - lo != n {
        return false;
    }
    let mut k: usize = 0;
    while k < n
        invariant
            n == lit@.len(),
            hi - lo == n,
            lo <= hi <= v@.len(),
            k <= n,
            forall|m: int| 0 <= m < k ==> v@[lo + m] == lit@[m],
        decreases n - k,
    {
        if v[lo + k] != lit.get_char(k) {
            assert(v@.subrange(lo as int, hi as int)[k as int] != lit@[k as int]);
            return false;
        }
        k = k + 1;
    }
    assert(v@.subrange(lo as int, hi as int) =~= lit@);
    true
}

} // verus!
