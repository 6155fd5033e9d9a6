//! Whether the program opens a terminal for itself.

use vstd::prelude::*;
use vstd::string::*;
use crate::text;

verus! {

/// The variable that tells a program that it was started in a terminal opened for it.
pub const SPAWNED_VARIABLE: &'static str = "RUSTCHAN_SPAWNED";

/// Whether the program opens a terminal for itself: it was started without arguments,
/// its output goes to no terminal, and it was not started in this way already.
pub fn needs_terminal(has_arguments: bool, output_is_terminal: bool, spawned: bool) -> (r: bool)
    ensures
        r == (!has_arguments && !output_is_terminal && !spawned),
{
    !has_arguments && !output_is_terminal && !spawned
}

/// The terminals that are tried, in this order.
pub open spec fn terminals() -> Seq<Seq<char>> {
    seq![
        "xterm"@,
        "gnome-terminal"@,
        "konsole"@,
        "xfce4-terminal"@,
        "x-terminal-emulator"@,
    ]
}

/// The terminal that is tried after so many others.
pub fn terminal_after(tried: usize) -> (r: Option<&'static str>)
    ensures
        text::opt_str(r) == if tried < terminals().len() {
            Some(terminals()[tried as int])
        } else {
            None
        },
{
    if tried == 0 {
        Some("xterm")
    } else if tried == 1 {
        Some("gnome-terminal")
    } else if tried == 2 {
        Some("konsole")
    } else if tried == 3 {
        Some("xfce4-terminal")
    } else if tried == 4 {
        Some("x-terminal-emulator")
    } else {
        None
    }
}

/// The terminals that are tried, in this order.
pub proof fn law_terminals_are_tried_in_order()
    ensures
        terminals().len() == 5,
        terminals()[0] == "xterm"@,
        terminals()[1] == "gnome-terminal"@,
        terminals()[2] == "konsole"@,
        terminals()[3] == "xfce4-terminal"@,
        terminals()[4] == "x-terminal-emulator"@,
{
}

} // verus!
