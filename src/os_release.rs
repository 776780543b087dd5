//! The human-readable operating system name from an os-release file.

use vstd::prelude::*;
use vstd::string::*;
use crate::error::{FetchError, view_result};
use crate::text::{chars_of, find_char, find_line, lemma_line_end, line_at, next_line, range_equals, split_once, trim_quotes, trim_range};

verus! {

/// The result of scanning the lines from index `i` on: the first line whose
/// key is `PRETTY_NAME` gives its value without surrounding double quotes; a
/// line without `=` before it fails the scan.
pub open spec fn os_name_from(s: Seq<char>, i: int) -> Result<Seq<char>, FetchError>
    decreases s.len() - i,
    via os_name_from_decreases
{
    if i < 0 || i >= s.len() {
        Err(FetchError::NotFound)
    } else {
        match split_once(line_at(s, i), '=') {
            None => Err(FetchError::Parse),
            Some((key, value)) => if key == "PRETTY_NAME"@ {
                Ok(trim_quotes(value))
            } else {
                os_name_from(s, next_line(s, i))
            },
        }
    }
}

#[via_fn]
proof fn os_name_from_decreases(s: Seq<char>, i: int) {
    if 0 <= i < s.len() {
        lemma_line_end(s, i);
    }
}

/// The operating system name that an os-release text gives.
pub open spec fn os_name(s: Seq<char>) -> Result<Seq<char>, FetchError> {
    os_name_from(s, 0)
}

/// `i` is where a line of `s` starts.
pub open spec fn is_line_start(s: Seq<char>, i: int) -> bool {
    0 <= i < s.len() && (i == 0 || s[i - 1] == '\n')
}

/// The line that starts at `i` holds `=`, and its key is not `PRETTY_NAME`.
pub open spec fn keyed_other(s: Seq<char>, i: int) -> bool {
    match split_once(line_at(s, i), '=') {
        Some((key, _)) => key != "PRETTY_NAME"@,
        None => false,
    }
}

/// An os-release text gives no name exactly when every one of its lines holds
/// `=` and none has the key `PRETTY_NAME`.
pub proof fn lemma_os_name_not_found(s: Seq<char>)
    ensures
        os_name(s) == Err::<Seq<char>, FetchError>(FetchError::NotFound) <==> forall|i: int|
            #[trigger] is_line_start(s, i) ==> keyed_other(s, i),
{
    lemma_scan_not_found(s, 0);
}

proof fn lemma_scan_not_found(s: Seq<char>, i: int)
    requires
        0 <= i <= s.len(),
        i == 0 || i == s.len() || s[i - 1] == '\n',
    ensures
        os_name_from(s, i) == Err::<Seq<char>, FetchError>(FetchError::NotFound) <==> forall|j: int|
            i <= j && #[trigger] is_line_start(s, j) ==> keyed_other(s, j),
    decreases s.len() - i,
{
    if i < s.len() {
        lemma_line_end(s, i);
        let n = next_line(s, i);
        lemma_scan_not_found(s, n);
        assert forall|j: int| i < j < n implies !#[trigger] is_line_start(s, j) by {
            assert(s[j - 1] != '\n');
        }
        assert(is_line_start(s, i));
        if keyed_other(s, i) {
            assert((forall|j: int| i <= j && #[trigger] is_line_start(s, j) ==> keyed_other(s, j))
                <==> (forall|j: int| n <= j && #[trigger] is_line_start(s, j) ==> keyed_other(s, j)));
        }
    }
}

/// Reads the `PRETTY_NAME` entry of an os-release text.
pub fn get_os_name(release: &str) -> (r: Result<String, FetchError>)
    ensures
        view_result(r) == os_name(release@),
{
    let v = chars_of(release);
    let mut i: usize = 0;
    while i < v.len()
        invariant
            v@ == release@,
            i <= v@.len(),
            os_name(release@) == os_name_from(v@, i as int),
        decreases v@.len() - i,
    {
        let (stop, next) = find_line(&v, i);
        match find_char(&v, i, stop, '=') {
            None => {
                return Err(FetchError::Parse);
            },
            Some(p) => {
                if range_equals(&v, i, p, "PRETTY_NAME") {
                    let (a, b) = trim_range(&v, p + 1, stop, true);
                    return Ok(String::from_str(release.substring_char(a, b)));
                }
            },
        }
        i = next;
    }
    Err(FetchError::NotFound)
}

} // verus!
