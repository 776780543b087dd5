//! The login shell's name and the `user@host` line.

use vstd::prelude::*;
use vstd::string::*;
use crate::error::{FetchError, view_result};

verus! {

/// What follows the last `/` of `s`; all of `s` when it holds none.
pub open spec fn last_segment(s: Seq<char>) -> Seq<char>
    decreases s.len(),
{
    if s.len() == 0 {
        s
    } else if s.last() == '/' {
        Seq::<char>::empty()
    } else {
        last_segment(s.drop_last()).push(s.last())
    }
}

pub open spec fn view_opt(o: Option<String>) -> Option<Seq<char>> {
    match o {
        Some(s) => Some(s@),
        None => None,
    }
}

/// The shell's name from the value of the shell variable, if it is set: the
/// last segment of the path, which must not be empty.
pub open spec fn shell_name(shell: Option<Seq<char>>) -> Result<Seq<char>, FetchError> {
    match shell {
        None => Err(FetchError::EnvVar),
        Some(path) => if last_segment(path).len() == 0 {
            Err(FetchError::NotFound)
        } else {
            Ok(last_segment(path))
        },
    }
}

/// The `user@host` line from the value of the user variable, if it is set.
pub open spec fn user_line(user: Option<Seq<char>>, nodename: Seq<char>) -> Result<
    Seq<char>,
    FetchError,
> {
    match user {
        None => Err(FetchError::EnvVar),
        Some(u) => Ok(u + "@"@ + nodename),
    }
}

/// The name of the login shell, given the shell variable's value (`None` when unset).
pub fn get_shell(shell: Option<String>) -> (r: Result<String, FetchError>)
    ensures
        view_result(r) == shell_name(view_opt(shell)),
{
    let path = match shell {
        None => {
            return Err(FetchError::EnvVar);
        },
        Some(p) => p,
    };
    let s = path.as_str();
    let n = s.unicode_len();
    let mut j: usize = n;
    assert(s@.subrange(0, n as int) =~= s@);
    assert(last_segment(s@) =~= last_segment(s@.subrange(0, n as int)) + s@.subrange(
        n as int,
        n as int,
    ));
    while j > 0 && s.get_char(j - 1) != '/'
        invariant
            n == s@.len(),
            j <= n,
            last_segment(s@) == last_segment(s@.subrange(0, j as int)) + s@.subrange(
                j as int,
                n as int,
            ),
        decreases j,
    {
        let ghost pre = s@.subrange(0, j as int);
        assert(pre.drop_last() =~= s@.subrange(0, j - 1));
        assert(s@.subrange(j - 1, n as int) =~= seq![pre.last()] + s@.subrange(j as int, n as int));
        assert(last_segment(pre) == last_segment(pre.drop_last()).push(pre.last()));
        assert(last_segment(pre.drop_last()).push(pre.last()) + s@.subrange(j as int, n as int)
            =~= last_segment(pre.drop_last()) + s@.subrange(j - 1, n as int));
        j = j - 1;
    }
    assert(last_segment(s@.subrange(0, j as int)).len() == 0);
    assert(last_segment(s@) =~= s@.subrange(j as int, n as int));
    if j == n {
        return Err(FetchError::NotFound);
    }
    Ok(String::from_str(s.substring_char(j, n)))
}

/// The `user@host` line, given the user variable's value (`None` when unset)
/// and the host's node name.
pub fn get_user_data(user: Option<String>, nodename: &str) -> (r: Result<String, FetchError>)
    ensures
        view_result(r) == user_line(view_opt(user), nodename@),
{
    match user {
        None => Err(FetchError::EnvVar),
        Some(u) => {
            let mut out = u;
            out.append("@");
            out.append(nodename);
            Ok(out)
        },
    }
}

} // verus!
