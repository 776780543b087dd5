//! The logo and the coloured information lines beside it.

use vstd::prelude::*;
use vstd::string::*;
use crate::decimal::{push_signed_dec, signed_dec};
use crate::error::{FetchError, view_result};

verus! {

/// Palette index of the information lines.
pub const TEXT_COLOUR: i32 = 219;

/// Palette index of the `user@host` line.
pub const USER_COLOUR: i32 = 212;

/// Number of rows of the logo, and so of the display.
pub const ART_ROWS: usize = 9;

/// `text` in the 256-colour palette's colour `colour`, then back to the default.
pub open spec fn coloured(text: Seq<char>, colour: int) -> Seq<char> {
    "\x1b[38;5;"@ + signed_dec(colour) + "m"@ + text + "\x1b[0m"@
}

/// Wraps `text` in the escape sequences for `colour` and for the reset after it.
pub fn print_cl(text: String, colour: i32) -> (r: String)
    ensures
        r@ == coloured(text@, colour as int),
{
    let mut out = String::from_str("\x1b[38;5;");
    push_signed_dec(&mut out, colour as i64);
    out.append("m");
    out.append(text.as_str());
    out.append("\x1b[0m");
    out
}

/// The line for a fallible result: none when it failed, else its text after
/// `label`, in `colour`.
pub open spec fn present(r: Result<Seq<char>, FetchError>, label: Seq<char>, colour: int) -> Seq<
    Seq<char>,
> {
    match r {
        Ok(t) => seq![coloured(label + t, colour)],
        Err(_) => Seq::empty(),
    }
}

/// The information lines in display order: `user@host`, a blank separator,
/// then the OS name, kernel release, up time, shell and memory, each left out
/// where it could not be had.
pub open spec fn info_lines(
    user: Result<Seq<char>, FetchError>,
    os: Result<Seq<char>, FetchError>,
    release: Seq<char>,
    up: Result<Seq<char>, FetchError>,
    shell: Result<Seq<char>, FetchError>,
    ram: Result<Seq<char>, FetchError>,
) -> Seq<Seq<char>> {
    present(user, Seq::empty(), USER_COLOUR as int) + seq![Seq::<char>::empty()] + present(
        os,
        "OS: "@,
        TEXT_COLOUR as int,
    ) + present(Ok(release), "KR: "@, TEXT_COLOUR as int) + present(
        up,
        "UP: "@,
        TEXT_COLOUR as int,
    ) + present(shell, "SH: "@, TEXT_COLOUR as int) + present(ram, "ME: "@, TEXT_COLOUR as int)
}

/// The texts of a sequence of strings.
pub open spec fn views(v: Seq<String>) -> Seq<Seq<char>> {
    v.map_values(|s: String| s@)
}

fn push_present(
    lines: &mut Vec<String>,
    r: Result<String, FetchError>,
    label: &str,
    colour: i32,
)
    ensures
        views(final(lines)@) == views(old(lines)@) + present(
            view_result(r),
            label@,
            colour as int,
        ),
{
    let ghost before = views(lines@);
    match r {
        Ok(t) => {
            let mut text = String::from_str(label);
            text.append(t.as_str());
            lines.push(print_cl(text, colour));
        },
        Err(_) => {},
    }
    assert(views(lines@) =~= before + present(view_result(r), label@, colour as int));
}

/// Collects the information lines in display order, leaving out those that
/// could not be had.
pub fn system_data(
    user: Result<String, FetchError>,
    os: Result<String, FetchError>,
    release: &str,
    up: Result<String, FetchError>,
    shell: Result<String, FetchError>,
    ram: Result<String, FetchError>,
) -> (r: Vec<String>)
    ensures
        views(r@) == info_lines(
            view_result(user),
            view_result(os),
            release@,
            view_result(up),
            view_result(shell),
            view_result(ram),
        ),
{
    let mut lines: Vec<String> = Vec::new();
    proof {
        reveal_strlit("");
    }
    assert(views(lines@) =~= Seq::empty());
    push_present(&mut lines, user, "", USER_COLOUR);
    let ghost a = views(lines@);
    lines.push(String::new());
    assert(views(lines@) =~= a + seq![Seq::<char>::empty()]);
    push_present(&mut lines, os, "OS: ", TEXT_COLOUR);
    push_present(&mut lines, Ok(String::from_str(release)), "KR: ", TEXT_COLOUR);
    push_present(&mut lines, up, "UP: ", TEXT_COLOUR);
    push_present(&mut lines, shell, "SH: ", TEXT_COLOUR);
    push_present(&mut lines, ram, "ME: ", TEXT_COLOUR);
    lines
}

/// The rows of the logo, top to bottom, with their colours.
pub open spec fn art() -> Seq<Seq<char>> {
    seq![
        "\x1b[38;5;112m   (    ((     "@,
        "\x1b[38;5;112m ((  (((  ((   "@,
        "\x1b[38;5;196m #%#\x1b[38;5;112m(\x1b[38;5;196m###\x1b[38;5;112m(\x1b[38;5;196m###   "@,
        "\x1b[38;5;196m##\x1b[38;5;112m((\x1b[38;5;196m##\x1b[38;5;112m(\x1b[38;5;196m##\x1b[38;5;112m(\x1b[38;5;196m#%#  "@,
        "\x1b[38;5;196m##%#####%####  "@,
        "\x1b[38;5;196m #########%#   "@,
        "\x1b[38;5;196m  ###%#####    "@,
        "\x1b[38;5;196m    ###%#      "@,
        "\x1b[38;5;196m      #        \x1b[0m"@,
    ]
}

/// Row `i` of the logo.
pub fn art_row(i: usize) -> (r: &'static str)
    requires
        i < ART_ROWS,
    ensures
        r@ == art()[i as int],
{
    match i {
        0 => "\x1b[38;5;112m   (    ((     ",
        1 => "\x1b[38;5;112m ((  (((  ((   ",
        2 => "\x1b[38;5;196m #%#\x1b[38;5;112m(\x1b[38;5;196m###\x1b[38;5;112m(\x1b[38;5;196m###   ",
        3 => "\x1b[38;5;196m##\x1b[38;5;112m((\x1b[38;5;196m##\x1b[38;5;112m(\x1b[38;5;196m##\x1b[38;5;112m(\x1b[38;5;196m#%#  ",
        4 => "\x1b[38;5;196m##%#####%####  ",
        5 => "\x1b[38;5;196m #########%#   ",
        6 => "\x1b[38;5;196m  ###%#####    ",
        7 => "\x1b[38;5;196m    ###%#      ",
        _ => "\x1b[38;5;196m      #        \x1b[0m",
    }
}

/// Row `i` of the display: the logo's row, then a space and the `i`-th
/// information line where there is one.
pub open spec fn display_row(i: int, info: Seq<Seq<char>>) -> Seq<char> {
    if i < info.len() {
        art()[i] + " "@ + info[i]
    } else {
        art()[i]
    }
}

/// Lays the information lines beside the logo, one per row; lines past the
/// last row are not shown.
pub fn render(info: &Vec<String>) -> (r: Vec<String>)
    ensures
        r@.len() == ART_ROWS,
        forall|i: int| 0 <= i < ART_ROWS ==> #[trigger] r@[i]@ == display_row(i, views(info@)),
{
    let mut rows: Vec<String> = Vec::new();
    let mut i: usize = 0;
    while i < ART_ROWS
        invariant
            i <= ART_ROWS,
            rows@.len() == i,
            forall|k: int| 0 <= k < i ==> #[trigger] rows@[k]@ == display_row(k, views(info@)),
        decreases ART_ROWS - i,
    {
        let mut row = String::from_str(art_row(i));
        if i < info.len() {
            row.append(" ");
            row.append(info[i].as_str());
        }
        rows.push(row);
        i = i + 1;
    }
    rows
}

/// The whole display: the information lines beside the logo.
pub fn display(
    user: Result<String, FetchError>,
    os: Result<String, FetchError>,
    release: &str,
    up: Result<String, FetchError>,
    shell: Result<String, FetchError>,
    ram: Result<String, FetchError>,
) -> (r: Vec<String>)
    ensures
        r@.len() == ART_ROWS,
        forall|i: int|
            0 <= i < ART_ROWS ==> #[trigger] r@[i]@ == display_row(
                i,
                info_lines(
                    view_result(user),
                    view_result(os),
                    release@,
                    view_result(up),
                    view_result(shell),
                    view_result(ram),
                ),
            ),
{
    let info = system_data(user, os, release, up, shell, ram);
    render(&info)
}

} // verus!
