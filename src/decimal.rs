//! Reading and writing decimal numbers.

use vstd::prelude::*;
use vstd::string::*;

verus! {

pub open spec fn is_digit(c: char) -> bool {
    '0' as u32 <= c as u32 && c as u32 <= '9' as u32
}

pub open spec fn digit_val(c: char) -> int {
    c as u32 - '0' as u32
}

pub open spec fn all_digits(s: Seq<char>) -> bool {
    forall|k: int| 0 <= k < s.len() ==> is_digit(s[k])
}

/// The number that the digits of `s` spell, most significant first; 0 for no digits.
pub open spec fn digits_val(s: Seq<char>) -> int
    decreases s.len(),
{
    if s.len() == 0 {
        0
    } else {
        digits_val(s.drop_last()) * 10 + digit_val(s.last())
    }
}

pub open spec fn min(a: int, b: int) -> int {
    if a < b {
        a
    } else {
        b
    }
}

/// What `i32`'s `from_str` reads from `s`: an optional sign, then at least one
/// digit, with the value in range.
pub open spec fn parse_i32(s: Seq<char>) -> Option<int> {
    let signed = s.len() > 0 && (s[0] == '-' || s[0] == '+');
    let body = if signed {
        s.drop_first()
    } else {
        s
    };
    let magnitude = digits_val(body);
    let value = if signed && s[0] == '-' {
        -magnitude
    } else {
        magnitude
    };
    if body.len() > 0 && all_digits(body) && i32::MIN <= value <= i32::MAX {
        Some(value)
    } else {
        None
    }
}

pub fn all_digits_in(v: &Vec<char>, lo: usize, hi: usize) -> (r: bool)
    requires
        lo <= hi <= v@.len(),
    ensures
        r == all_digits(v@.subrange(lo as int, hi as int)),
{
    let mut j: usize = lo;
    while j < hi
        invariant
            lo <= j <= hi <= v@.len(),
            forall|k: int| lo <= k < j ==> is_digit(v@[k]),
        decreases hi - j,
    {
        let u = v[j] as u32;
        if !('0' as u32 <= u && u <= '9' as u32) {
            assert(!is_digit(v@.subrange(lo as int, hi as int)[j - lo]));
            return false;
        }
        j = j + 1;
    }
    assert forall|k: int| 0 <= k < hi - lo implies is_digit(
        #[trigger] v@.subrange(lo as int, hi as int)[k],
    ) by {
        assert(v@.subrange(lo as int, hi as int)[k] == v@[lo + k]);
    }
    true
}

/// The value of the digits in `lo..hi`, or `cap` where that value is larger.
pub fn digits_capped(v: &Vec<char>, lo: usize, hi: usize, cap: u128) -> (r: u128)
    requires
        lo <= hi <= v@.len(),
        all_digits(v@.subrange(lo as int, hi as int)),
        cap <= u64::MAX as u128 + 1,
    ensures
        r == min(digits_val(v@.subrange(lo as int, hi as int)), cap as int),
{
    let mut acc: u128 = 0;
    let mut j: usize = lo;
    while j < hi
        invariant
            lo <= j <= hi <= v@.len(),
            all_digits(v@.subrange(lo as int, hi as int)),
            cap <= u64::MAX as u128 + 1,
            acc == min(digits_val(v@.subrange(lo as int, j as int)), cap as int),
        decreases hi - j,
    {
        assert(is_digit(v@.subrange(lo as int, hi as int)[j - lo]));
        let d = (v[j] as u32 - '0' as u32) as u128;
        let ghost prev = digits_val(v@.subrange(lo as int, j as int));
        assert(v@.subrange(lo as int, j + 1).drop_last() =~= v@.subrange(lo as int, j as int));
        assert(digits_val(v@.subrange(lo as int, j + 1)) == prev * 10 + d);
        assert(prev >= 0) by {
            lemma_digits_val_nonneg(v@.subrange(lo as int, j as int));
        }
        let next = acc * 10 + d;
        acc = if next > cap {
            cap
        } else {
            next
        };
        j = j + 1;
    }
    acc
}

pub proof fn lemma_digits_val_nonneg(s: Seq<char>)
    requires
        all_digits(s),
    ensures
        digits_val(s) >= 0,
    decreases s.len(),
{
    if s.len() > 0 {
        lemma_digits_val_nonneg(s.drop_last());
    }
}

/// Reads an `i32` from `lo..hi` as `i32`'s `from_str` does.
pub fn parse_i32_in(v: &Vec<char>, lo: usize, hi: usize) -> (r: Option<i32>)
    requires
        lo <= hi <= v@.len(),
    ensures
        match r {
            Some(x) => parse_i32(v@.subrange(lo as int, hi as int)) == Some(x as int),
            None => parse_i32(v@.subrange(lo as int, hi as int)) is None,
        },
{
    let ghost s = v@.subrange(lo as int, hi as int);
    let signed = lo < hi && (v[lo] == '-' || v[lo] == '+');
    let negative = signed && v[lo] == '-';
    let start = if signed {
        lo + 1
    } else {
        lo
    };
    assert(s.len() > 0 ==> s[0] == v@[lo as int]);
    assert(signed ==> s.drop_first() =~= v@.subrange(start as int, hi as int));
    assert(!signed ==> s =~= v@.subrange(start as int, hi as int));
    if start == hi || !all_digits_in(v, start, hi) {
        return None;
    }
    let m = digits_capped(v, start, hi, 2147483649);
    if negative {
        if m > 2147483648 {
            None
        } else {
            Some((0 - (m as i64)) as i32)
        }
    } else {
        if m > 2147483647 {
            None
        } else {
            Some(m as i32)
        }
    }
}

/// Reads the digits in `lo..hi` as a `u64`, or `None` when they are not all
/// digits or their value does not fit.
pub fn parse_u64_in(v: &Vec<char>, lo: usize, hi: usize) -> (r: Option<u64>)
    requires
        lo <= hi <= v@.len(),
    ensures
        match r {
            Some(x) => all_digits(v@.subrange(lo as int, hi as int)) && digits_val(
                v@.subrange(lo as int, hi as int),
            ) == x as int,
            None => !all_digits(v@.subrange(lo as int, hi as int)) || digits_val(
                v@.subrange(lo as int, hi as int),
            ) > u64::MAX,
        },
{
    if !all_digits_in(v, lo, hi) {
        return None;
    }
    let m = digits_capped(v, lo, hi, u64::MAX as u128 + 1);
    if m > u64::MAX as u128 {
        None
    } else {
        Some(m as u64)
    }
}

/// The digit that stands for `d`.
pub open spec fn digit_char(d: nat) -> char {
    seq!['0', '1', '2', '3', '4', '5', '6', '7', '8', '9'][d as int]
}

/// `n` written in decimal, without leading zeros.
pub open spec fn dec(n: nat) -> Seq<char>
    decreases n,
{
    if n < 10 {
        seq![digit_char(n)]
    } else {
        dec(n / 10).push(digit_char(n % 10))
    }
}

/// `x` written in decimal, with a minus sign when negative.
pub open spec fn signed_dec(x: int) -> Seq<char> {
    if x < 0 {
        seq!['-'] + dec((-x) as nat)
    } else {
        dec(x as nat)
    }
}

fn digit_str(d: u64) -> (r: &'static str)
    requires
        d < 10,
    ensures
        r@ == seq![digit_char(d as nat)],
{
    proof {
        reveal_strlit("0");
        reveal_strlit("1");
        reveal_strlit("2");
        reveal_strlit("3");
        reveal_strlit("4");
        reveal_strlit("5");
        reveal_strlit("6");
        reveal_strlit("7");
        reveal_strlit("8");
        reveal_strlit("9");
    }
    let r = match d {
        0 => "0",
        1 => "1",
        2 => "2",
        3 => "3",
        4 => "4",
        5 => "5",
        6 => "6",
        7 => "7",
        8 => "8",
        _ => "9",
    };
    assert(r@ =~= seq![digit_char(d as nat)]);
    r
}

/// Appends `n` in decimal to `out`.
pub fn push_dec(out: &mut String, n: u64)
    ensures
        final(out)@ == old(out)@ + dec(n as nat),
    decreases n,
{
    if n >= 10 {
        push_dec(out, n / 10);
    }
    out.append(digit_str(n % 10));
    assert(out@ =~= old(out)@ + dec(n as nat));
}

/// Appends `x` in decimal to `out`.
pub fn push_signed_dec(out: &mut String, x: i64)
    ensures
        final(out)@ == old(out)@ + signed_dec(x as int),
{
    if x < 0 {
        proof {
            reveal_strlit("-");
        }
        out.append("-");
        push_dec(out, (0 - (x as i128)) as u64);
    } else {
        push_dec(out, x as u64);
    }
    assert(out@ =~= old(out)@ + signed_dec(x as int));
}

} // verus!
