//! Small pieces of terminal widgets that carry logic: the spinner, the
//! command log's scroll range and key bindings.
use vstd::prelude::*;

verus! {

/// A key and what it does, as the footer lists it.
#[derive(Debug, Clone, Copy, PartialEq, Eq)]
pub struct KeyBinding {
    pub key: &'static str,
    pub label: &'static str,
}

pub open spec fn spinner_glyph(i: int) -> Seq<char> {
    if i == 0 { "⠋"@ }
    else if i == 1 { "⠙"@ }
    else if i == 2 { "⠹"@ }
    else if i == 3 { "⠸"@ }
    else if i == 4 { "⠼"@ }
    else if i == 5 { "⠴"@ }
    else if i == 6 { "⠦"@ }
    else if i == 7 { "⠧"@ }
    else if i == 8 { "⠇"@ }
    else { "⠏"@ }
}

/// The spinner frame for a tick; the ten frames repeat.
pub fn spinner_frame(spinner_tick: usize) -> (r: &'static str)
    ensures
        r@ == spinner_glyph((spinner_tick % 10) as int),
{
    let i = spinner_tick % 10;
    if i == 0 { "⠋" }
    else if i == 1 { "⠙" }
    else if i == 2 { "⠹" }
    else if i == 3 { "⠸" }
    else if i == 4 { "⠼" }
    else if i == 5 { "⠴" }
    else if i == 6 { "⠦" }
    else if i == 7 { "⠧" }
    else if i == 8 { "⠇" }
    else { "⠏" }
}

/// The furthest the command log can scroll up from its newest line: the
/// lines that do not fit.
pub fn clamp_command_log_scroll(scroll_from_bottom: usize, command_count: usize, visible_height: usize) -> (r: usize)
    ensures
        r == if command_count > visible_height {
            if scroll_from_bottom < command_count - visible_height { scroll_from_bottom } else { (command_count - visible_height) as usize }
        } else {
            0
        },
{
    let max = if command_count > visible_height { command_count - visible_height } else { 0 };
    if scroll_from_bottom < max { scroll_from_bottom } else { max }
}

} // verus!
