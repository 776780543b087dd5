//! How long the host has been up, from an uptime text.

use vstd::prelude::*;
use vstd::string::*;
use crate::decimal::{all_digits, all_digits_in, dec, digits_val, parse_u64_in, push_dec};
use crate::error::{FetchError, view_result};
use crate::text::{chars_of, find_char, find_ws, first_token, split_once};

verus! {

/// The whole seconds of a decimal number of seconds: an optional `+`, digits,
/// then optionally a point and more digits, with at least one digit in all.
///
/// This is the form that an uptime resource writes its counter in, and the
/// only form read: `None` for any other text, among them the other spellings
/// of a float (an exponent, a minus sign, `inf`, `NaN`), and where the whole
/// seconds do not fit in a `u64`. Reading the whole seconds exactly, rather
/// than through a float, keeps the hours and minutes exact on every input.
pub open spec fn whole_seconds(tok: Seq<char>) -> Option<int> {
    let number = if tok.len() > 0 && tok[0] == '+' {
        tok.drop_first()
    } else {
        tok
    };
    let (whole, frac) = match split_once(number, '.') {
        Some((a, b)) => (a, b),
        None => (number, Seq::<char>::empty()),
    };
    if all_digits(whole) && all_digits(frac) && whole.len() + frac.len() > 0 && digits_val(whole)
        <= u64::MAX {
        Some(digits_val(whole))
    } else {
        None
    }
}

/// The whole seconds of up time that an uptime text gives: the number before
/// its first white space.
pub open spec fn uptime_seconds(s: Seq<char>) -> Result<int, FetchError> {
    match first_token(s) {
        None => Err(FetchError::Parse),
        Some(tok) => match whole_seconds(tok) {
            None => Err(FetchError::Parse),
            Some(n) => Ok(n),
        },
    }
}

/// A span of `n` seconds in words: seconds alone under a minute, else whole
/// hours and the minutes past them, each left out when zero.
pub open spec fn uptime_text(n: nat) -> Seq<char> {
    if n < 60 {
        dec(n) + " Seconds"@
    } else {
        let h = n / 3600;
        let m = (n / 60) % 60;
        let hours = if h >= 1 {
            dec(h) + if h < 2 {
                " Hour "@
            } else {
                " Hours "@
            }
        } else {
            Seq::<char>::empty()
        };
        let minutes = if m >= 1 {
            dec(m) + if m < 2 {
                " Minute"@
            } else {
                " Minutes"@
            }
        } else {
            Seq::<char>::empty()
        };
        hours + minutes
    }
}

/// The up time line that an uptime text gives.
pub open spec fn uptime(s: Seq<char>) -> Result<Seq<char>, FetchError> {
    match uptime_seconds(s) {
        Ok(n) => Ok(uptime_text(n as nat)),
        Err(e) => Err(e),
    }
}

/// Writes a span of seconds in words.
pub fn format_uptime(secs: u64) -> (r: String)
    ensures
        r@ == uptime_text(secs as nat),
{
    let mut out = String::new();
    if secs < 60 {
        push_dec(&mut out, secs);
        out.append(" Seconds");
    } else {
        let h = secs / 3600;
        let m = (secs / 60) % 60;
        if h >= 1 {
            push_dec(&mut out, h);
            if h < 2 {
                out.append(" Hour ");
            } else {
                out.append(" Hours ");
            }
        }
        if m >= 1 {
            push_dec(&mut out, m);
            if m < 2 {
                out.append(" Minute");
            } else {
                out.append(" Minutes");
            }
        }
    }
    assert(out@ =~= uptime_text(secs as nat));
    out
}

/// Reads the whole seconds from the start of an uptime text.
pub fn parse_uptime_seconds(uptime: &str) -> (r: Result<u64, FetchError>)
    ensures
        match r {
            Ok(n) => uptime_seconds(uptime@) == Ok::<int, FetchError>(n as int),
            Err(e) => uptime_seconds(uptime@) == Err::<int, FetchError>(e),
        },
{
    let v = chars_of(uptime);
    let end = match find_ws(&v) {
        None => {
            return Err(FetchError::Parse);
        },
        Some(p) => p,
    };
    let start: usize = if end > 0 && v[0] == '+' {
        1
    } else {
        0
    };
    assert(start == 1 ==> v@.subrange(0, end as int).drop_first() =~= v@.subrange(
        1,
        end as int,
    ));
    let (whole_end, frac_start) = match find_char(&v, start, end, '.') {
        Some(p) => (p, p + 1),
        None => (end, end),
    };
    assert(v@.subrange(end as int, end as int) =~= Seq::<char>::empty());
    let whole = parse_u64_in(&v, start, whole_end);
    let frac_ok = all_digits_in(&v, frac_start, end);
    if (whole_end - start) + (end - frac_start) == 0 || !frac_ok {
        return Err(FetchError::Parse);
    }
    match whole {
        None => Err(FetchError::Parse),
        Some(n) => Ok(n),
    }
}

/// Reads an uptime text and shows how long the host has been up.
pub fn get_uptime(uptime: &str) -> (r: Result<String, FetchError>)
    ensures
        view_result(r) == crate::uptime::uptime(uptime@),
{
    match parse_uptime_seconds(uptime) {
        Ok(n) => Ok(format_uptime(n)),
        Err(e) => Err(e),
    }
}

} // verus!
