//! Memory in use and in total, from a meminfo text.

use vstd::prelude::*;
use vstd::string::*;
use crate::decimal::{parse_i32, parse_i32_in, push_signed_dec, signed_dec};
use crate::error::{FetchError, view_result};
use crate::text::{
    chars_of, find_char, find_line, lemma_line_end, line_at, next_line, range_equals, split_once,
    trim, trim_range,
};

verus! {

/// `s` with every `kB` taken out, scanning from the left.
pub open spec fn remove_kb(s: Seq<char>) -> Seq<char>
    decreases s.len(),
{
    if s.len() >= 2 && s[0] == 'k' && s[1] == 'B' {
        remove_kb(s.skip(2))
    } else if s.len() > 0 {
        seq![s[0]] + remove_kb(s.drop_first())
    } else {
        s
    }
}

/// The number that the text after a label's colon gives.
pub open spec fn field_value(rest: Seq<char>) -> Option<int> {
    parse_i32(trim(remove_kb(rest)))
}

pub open spec fn opt_int(o: Option<i32>) -> Option<int> {
    match o {
        Some(x) => Some(x as int),
        None => None,
    }
}

/// Both fields, once found.
pub open spec fn both(total: Option<int>, avail: Option<int>) -> Result<(int, int), FetchError> {
    match (total, avail) {
        (Some(t), Some(a)) => Ok((t, a)),
        _ => Err(FetchError::NotFound),
    }
}

/// The result of scanning the lines from index `i` on, with the fields found
/// so far. The scan stops as soon as both fields are found, without reading
/// the remaining lines, or at the end of the text.
pub open spec fn mem_scan(s: Seq<char>, i: int, total: Option<int>, avail: Option<int>) -> Result<
    (int, int),
    FetchError,
>
    decreases s.len() - i,
    via mem_scan_decreases
{
    if i < 0 || i >= s.len() || (total is Some && avail is Some) {
        both(total, avail)
    } else {
        match split_once(trim(line_at(s, i)), ':') {
            None => Err(FetchError::Parse),
            Some((label, rest)) => if label == "MemTotal"@ {
                match field_value(rest) {
                    None => Err(FetchError::Parse),
                    Some(t) => mem_scan(s, next_line(s, i), Some(t), avail),
                }
            } else if label == "MemAvailable"@ {
                match field_value(rest) {
                    None => Err(FetchError::Parse),
                    Some(a) => mem_scan(s, next_line(s, i), total, Some(a)),
                }
            } else {
                mem_scan(s, next_line(s, i), total, avail)
            },
        }
    }
}

#[via_fn]
proof fn mem_scan_decreases(s: Seq<char>, i: int, total: Option<int>, avail: Option<int>) {
    if 0 <= i < s.len() {
        lemma_line_end(s, i);
    }
}

/// Division that rounds toward zero.
pub open spec fn trunc_div(x: int, d: int) -> int {
    if x >= 0 {
        x / d
    } else {
        -((-x) / d)
    }
}

/// How memory use is shown: used and total, in MiB.
pub open spec fn ram_text(total: int, avail: int) -> Seq<char> {
    signed_dec(trunc_div(total - avail, 1024)) + "MiB / "@ + signed_dec(trunc_div(total, 1024))
        + "MiB "@
}

/// The memory line that a meminfo text gives.
pub open spec fn ram_usage(s: Seq<char>) -> Result<Seq<char>, FetchError> {
    match mem_scan(s, 0, None, None) {
        Ok((t, a)) => Ok(ram_text(t, a)),
        Err(e) => Err(e),
    }
}

/// The characters of `lo..hi` with every `kB` taken out.
fn without_kb(v: &Vec<char>, lo: usize, hi: usize) -> (w: Vec<char>)
    requires
        lo <= hi <= v@.len(),
    ensures
        w@ == remove_kb(v@.subrange(lo as int, hi as int)),
{
    let mut w: Vec<char> = Vec::new();
    let mut j: usize = lo;
    while j < hi
        invariant
            lo <= j <= hi <= v@.len(),
            remove_kb(v@.subrange(lo as int, hi as int)) == w@ + remove_kb(
                v@.subrange(j as int, hi as int),
            ),
        decreases hi - j,
    {
        let ghost rest = v@.subrange(j as int, hi as int);
        if j + 1 < hi && v[j] == 'k' && v[j + 1] == 'B' {
            assert(rest.skip(2) =~= v@.subrange(j + 2, hi as int));
            j = j + 2;
        } else {
            assert(rest.drop_first() =~= v@.subrange(j + 1, hi as int));
            assert(remove_kb(rest) == seq![v@[j as int]] + remove_kb(rest.drop_first()));
            w.push(v[j]);
            assert(w@ + remove_kb(v@.subrange(j + 1, hi as int)) =~= w@.drop_last() + (seq![
                v@[j as int],
            ] + remove_kb(rest.drop_first())));
            j = j + 1;
        }
    }
    assert(v@.subrange(hi as int, hi as int).len() == 0);
    assert(w@ + remove_kb(v@.subrange(hi as int, hi as int)) =~= w@);
    w
}

/// Reads the value of a field from the text after its label's colon.
fn read_field(v: &Vec<char>, lo: usize, hi: usize) -> (r: Option<i32>)
    requires
        lo <= hi <= v@.len(),
    ensures
        opt_int(r) == field_value(v@.subrange(lo as int, hi as int)),
{
    let w = without_kb(v, lo, hi);
    let (a, b) = trim_range(&w, 0, w.len(), false);
    assert(w@.subrange(0, w@.len() as int) =~= w@);
    parse_i32_in(&w, a, b)
}

fn format_ram(total: i32, avail: i32) -> (r: String)
    ensures
        r@ == ram_text(total as int, avail as int),
{
    let used = total as i64 - avail as i64;
    let used_mib = if used >= 0 {
        used / 1024
    } else {
        0 - (0 - used) / 1024
    };
    let t = total as i64;
    let total_mib = if t >= 0 {
        t / 1024
    } else {
        0 - (0 - t) / 1024
    };
    let mut out = String::new();
    push_signed_dec(&mut out, used_mib);
    out.append("MiB / ");
    push_signed_dec(&mut out, total_mib);
    out.append("MiB ");
    assert(out@ =~= ram_text(total as int, avail as int));
    out
}

/// Reads `MemTotal` and `MemAvailable` from a meminfo text and shows the
/// memory in use and in total.
pub fn get_ram_usage(meminfo: &str) -> (r: Result<String, FetchError>)
    ensures
        view_result(r) == ram_usage(meminfo@),
{
    let v = chars_of(meminfo);
    let mut total: Option<i32> = None;
    let mut avail: Option<i32> = None;
    let mut i: usize = 0;
    loop
        invariant
            v@ == meminfo@,
            i <= v@.len(),
            mem_scan(meminfo@, 0, None, None) == mem_scan(v@, i as int, opt_int(total), opt_int(avail)),
        ensures
            mem_scan(meminfo@, 0, None, None) == both(opt_int(total), opt_int(avail)),
        decreases v@.len() - i,
    {
        if i >= v.len() || (total.is_some() && avail.is_some()) {
            break;
        }
        let (stop, next) = find_line(&v, i);
        let (lo, hi) = trim_range(&v, i, stop, false);
        assert(v@.subrange(lo as int, hi as int) == trim(line_at(v@, i as int)));
        match find_char(&v, lo, hi, ':') {
            None => {
                return Err(FetchError::Parse);
            },
            Some(p) => {
                if range_equals(&v, lo, p, "MemTotal") {
                    match read_field(&v, p + 1, hi) {
                        None => {
                            return Err(FetchError::Parse);
                        },
                        Some(t) => {
                            total = Some(t);
                        },
                    }
                } else if range_equals(&v, lo, p, "MemAvailable") {
                    match read_field(&v, p + 1, hi) {
                        None => {
                            return Err(FetchError::Parse);
                        },
                        Some(a) => {
                            avail = Some(a);
                        },
                    }
                }
            },
        }
        i = next;
    }
    match (total, avail) {
        (Some(t), Some(a)) => Ok(format_ram(t, a)),
        _ => Err(FetchError::NotFound),
    }
}

} // verus!
