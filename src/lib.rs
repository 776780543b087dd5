//! Facts about the running host, gathered from the text of a few system
//! resources and laid out beside a small coloured logo.

use vstd::prelude::*;

pub mod decimal;
pub mod display;
pub mod error;
pub mod identity;
pub mod meminfo;
pub mod os_release;
pub mod text;
pub mod uptime;

pub use display::{art_row, display, print_cl, render, system_data, ART_ROWS, TEXT_COLOUR, USER_COLOUR};
pub use error::FetchError;
pub use identity::{get_shell, get_user_data};
pub use meminfo::get_ram_usage;
pub use os_release::get_os_name;
pub use uptime::{format_uptime, get_uptime, parse_uptime_seconds};

verus! {

/// The parsers keep no state between calls: what each of them gives is a
/// function of the text that it reads, so two texts with the same characters
/// give the same results, however often they are parsed.
pub proof fn lemma_parsers_deterministic(a: Seq<char>, b: Seq<char>)
    requires
        a == b,
    ensures
        os_release::os_name(a) == os_release::os_name(b),
        meminfo::ram_usage(a) == meminfo::ram_usage(b),
        uptime::uptime(a) == uptime::uptime(b),
        identity::shell_name(Some(a)) == identity::shell_name(Some(b)),
{
}

} // verus!
