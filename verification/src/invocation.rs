//! Commands that the user types in place of a prompt.

use vstd::prelude::*;

use crate::text::{same_text, trim};
#[allow(unused_imports)]
use crate::text::trimmed;

verus! {

/// Whether a character ends a line.
pub open spec fn is_line_break(c: char) -> bool {
    c == '\n' || c == '\r' || c == '\u{2028}' || c == '\u{2029}'
}

/// Whether a text has more than one line.
pub open spec fn has_line_break(text: Seq<char>) -> bool {
    exists|i: int| 0 <= i < text.len() && is_line_break(#[trigger] text[i])
}

/// Whether the `goal` command, with these arguments, may start a turn: all of
/// its forms may but those that look at a goal or set it aside.
pub open spec fn goal_starts_turn(args: Seq<char>) -> bool {
    !(args == ""@ || args == "status"@ || args == "pause"@ || args == "clear"@ || args == "stop"@)
}

/// Whether a text is a command of the session, and then whether it may start a
/// turn of the agent. The command and its arguments are those that the
/// invocation grammar finds at the start of the text.
pub open spec fn command_starts_turn(
    text: Seq<char>,
    leading: Option<(Seq<char>, Seq<char>)>,
) -> Option<bool> {
    if has_line_break(text) {
        None
    } else {
        match leading {
            Some((name, args)) => if name == "compact"@ || name == "refine"@ || name
                == "autonomous"@ {
                Some(false)
            } else if name == "goal"@ {
                Some(goal_starts_turn(trimmed(args)))
            } else {
                None
            },
            None => None,
        }
    }
}

/// A command and its arguments.
pub open spec fn leading_view(leading: Option<(&str, &str)>) -> Option<(Seq<char>, Seq<char>)> {
    match leading {
        Some((name, args)) => Some((name@, args@)),
        None => None,
    }
}

/// Whether a text has more than one line.
pub fn spans_lines(text: &str) -> (spans: bool)
    ensures
        spans == has_line_break(text@),
{
    for c in iter: text.chars()
        invariant
            iter.seq() == text@,
            forall|i: int| 0 <= i < iter.index() ==> !is_line_break(#[trigger] text@[i]),
    {
        if c == '\n' || c == '\r' || c == '\u{2028}' || c == '\u{2029}' {
            proof {
                assert(is_line_break(text@[iter.index() as int]));
            }
            return true;
        }
    }
    false
}

/// Whether the `goal` command, with these trimmed arguments, may start a turn.
pub fn goal_may_start_turn(args: &str) -> (may: bool)
    ensures
        may == goal_starts_turn(args@),
{
    !(same_text(args, "") || same_text(args, "status") || same_text(args, "pause") || same_text(
        args,
        "clear",
    ) || same_text(args, "stop"))
}

/// Whether a text is a command of the session, and then whether it may start a
/// turn of the agent.
pub fn session_command_may_start_turn(text: &str, leading: Option<(&str, &str)>) -> (may: Option<
    bool,
>)
    ensures
        may == command_starts_turn(text@, leading_view(leading)),
{
    if spans_lines(text) {
        return None;
    }
    match leading {
        Some((name, args)) => if same_text(name, "compact") || same_text(name, "refine")
            || same_text(name, "autonomous") {
            Some(false)
        } else if same_text(name, "goal") {
            Some(goal_may_start_turn(trim(args)))
        } else {
            None
        },
        None => None,
    }
}

} // verus!
