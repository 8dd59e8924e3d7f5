use vstd::prelude::*;

use crate::text::{byte_len, char_index, is_boundary, min_int, split_text_at, text_len};

verus! {

/// The cursor drawn after the publish topic: the block when it shows, nothing
/// at offset 0, a space otherwise.
pub open spec fn topic_cursor(cursor_visible: bool, cursor: usize) -> Seq<char> {
    if cursor_visible {
        "▌"@
    } else if cursor == 0 {
        Seq::empty()
    } else {
        " "@
    }
}

pub fn topic_cursor_text(cursor_visible: bool, cursor: usize) -> (r: &'static str)
    ensures
        r@ == topic_cursor(cursor_visible, cursor),
{
    if cursor_visible {
        "▌"
    } else if cursor == 0 {
        proof {
            reveal_strlit("");
        }
        ""
    } else {
        " "
    }
}

/// The label of a QoS level.
pub open spec fn qos_line(qos: u8) -> Seq<char> {
    if qos == 0 {
        "0 - At most once"@
    } else if qos == 1 {
        "1 - At least once"@
    } else {
        "2 - Exactly once"@
    }
}

pub fn qos_label(qos: u8) -> (r: &'static str)
    requires
        qos <= 2,
    ensures
        r@ == qos_line(qos),
{
    if qos == 0 {
        "0 - At most once"
    } else if qos == 1 {
        "1 - At least once"
    } else {
        "2 - Exactly once"
    }
}

pub open spec fn retain_line(retain: bool) -> Seq<char> {
    if retain {
        "Retain: ON  (^R)"@
    } else {
        "Retain: OFF (^R)"@
    }
}

pub fn retain_text(retain: bool) -> (r: &'static str)
    ensures
        r@ == retain_line(retain),
{
    if retain {
        "Retain: ON  (^R)"
    } else {
        "Retain: OFF (^R)"
    }
}

pub open spec fn format_line(is_json: bool) -> Seq<char> {
    if is_json {
        "Format: JSON (^J)"@
    } else {
        "Format: Text (^J)"@
    }
}

pub fn format_text(is_json: bool) -> (r: &'static str)
    ensures
        r@ == format_line(is_json),
{
    if is_json {
        "Format: JSON (^J)"
    } else {
        "Format: Text (^J)"
    }
}

/// When splitting a payload line at the cursor does not panic.
pub open spec fn line_split_ok(line: Seq<char>, col: usize) -> bool {
    is_boundary(line, min_int(col as int, byte_len(line) as int))
}

/// A payload line cut at the cursor column (clamped to the end of the line).
pub fn split_line_at_cursor(line: &str, col: usize) -> (r: (&str, &str))
    requires
        line_split_ok(line@, col),
    ensures
        r.0@ == line@.take(char_index(line@, min_int(col as int, byte_len(line@) as int))),
        r.1@ == line@.skip(char_index(line@, min_int(col as int, byte_len(line@) as int))),
{
    let len = text_len(line);
    let c = if col < len {
        col
    } else {
        len
    };
    split_text_at(line, c)
}

} // verus!
