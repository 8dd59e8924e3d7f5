use vstd::prelude::*;

use crate::app::state::{App, AppView};
use vstd::utf8::{decode_utf8, valid_utf8};

use crate::text::{append_decimal, byte_len, decimal, lossy_text, min_int, take_chars, utf8_lossy};

verus! {

/// The cursor drawn after the subscription topic: a bar inside the text, the
/// block at its end, nothing without the focus.
pub open spec fn topic_cursor_mark(focused: bool, cursor: usize, text: Seq<char>) -> Seq<char> {
    if focused && cursor < byte_len(text) {
        "|"@
    } else if focused {
        "▌"@
    } else {
        Seq::empty()
    }
}

pub fn cursor_char(focused: bool, cursor: usize, text: &str) -> (r: &'static str)
    ensures
        r@ == topic_cursor_mark(focused, cursor, text@),
{
    if focused && cursor < crate::text::text_len(text) {
        "|"
    } else if focused {
        "▌"
    } else {
        proof {
            reveal_strlit("");
        }
        ""
    }
}

/// The QoS shown in the subscription form.
pub open spec fn sub_qos_line(qos: u8) -> Seq<char> {
    decimal(qos as nat) + " [Spc] "@
}

pub fn sub_qos_text(qos: u8) -> (r: String)
    ensures
        r@ == sub_qos_line(qos),
{
    let mut r = String::new();
    append_decimal(&mut r, qos as u64);
    r.append(" [Spc] ");
    r
}

/// One line of the topic list: a marker for the focused topic, the topic, its
/// QoS and how many messages it holds.
pub open spec fn topic_entry(focused: bool, topic: Seq<char>, qos: u8, count: nat) -> Seq<char> {
    (if focused {
        "▸ "@
    } else {
        "  "@
    }) + " "@ + topic + " (QoS:"@ + decimal(qos as nat) + ") ["@ + decimal(count) + "]"@
}

pub fn topic_list_entry(focused: bool, topic: &str, qos: u8, count: usize) -> (r: String)
    ensures
        r@ == topic_entry(focused, topic@, qos, count as nat),
{
    let mut r = String::new();
    r.append(
        if focused {
            "▸ "
        } else {
            "  "
        },
    );
    r.append(" ");
    r.append(topic);
    r.append(" (QoS:");
    append_decimal(&mut r, qos as u64);
    r.append(") [");
    append_decimal(&mut r, count as u64);
    r.append("]");
    proof {
        assert(r@ =~= topic_entry(focused, topic@, qos, count as nat));
    }
    r
}

/// The indices of the messages shown, newest first: the newest `scroll_offset`
/// ones are skipped and at most `height` follow.
pub open spec fn visible_indices(len: nat, scroll_offset: nat, height: nat) -> Seq<int> {
    let avail = if scroll_offset < len {
        len - scroll_offset
    } else {
        0
    };
    Seq::new(min_int(height as int, avail) as nat, |j: int| len - 1 - scroll_offset - j)
}

pub fn visible_messages(len: usize, scroll_offset: usize, height: usize) -> (r: Vec<usize>)
    ensures
        r@.map_values(|i: usize| i as int) == visible_indices(
            len as nat,
            scroll_offset as nat,
            height as nat,
        ),
{
    let avail = if scroll_offset < len {
        len - scroll_offset
    } else {
        0
    };
    let count = if height < avail {
        height
    } else {
        avail
    };
    let ghost want = visible_indices(len as nat, scroll_offset as nat, height as nat);
    let mut r: Vec<usize> = Vec::new();
    let mut j: usize = 0;
    while j < count
        invariant
            count <= avail,
            avail == (if scroll_offset < len {
                len - scroll_offset
            } else {
                0
            }),
            want == visible_indices(len as nat, scroll_offset as nat, height as nat),
            want.len() == count,
            0 <= j <= count,
            r@.len() == j,
            forall|k: int| 0 <= k < j ==> r@[k] as int == want[k],
        decreases count - j,
    {
        r.push(len - 1 - scroll_offset - j);
        assert(want[j as int] == len - 1 - scroll_offset - j);
        j = j + 1;
    }
    proof {
        assert(r@.map_values(|i: usize| i as int) =~= want);
    }
    r
}

/// What the message panel says instead of messages: nothing while a topic is
/// selected, otherwise why there is nothing to show.
pub open spec fn placeholder_line(a: AppView) -> Option<Seq<char>> {
    if (a.focused_subscription as int) < a.subscriptions.len() {
        None
    } else if a.subscriptions.len() > 0 {
        Some("No subscription selected"@)
    } else {
        Some("No subscriptions. Use ^S to subscribe to a topic."@)
    }
}

pub fn messages_placeholder(app: &App) -> (r: Option<&'static str>)
    ensures
        match r {
            Some(s) => placeholder_line(app@) == Some(s@),
            None => placeholder_line(app@) is None,
        },
{
    if app.focused_subscription < app.subscriptions.len() {
        None
    } else if app.subscriptions.len() > 0 {
        Some("No subscription selected")
    } else {
        Some("No subscriptions. Use ^S to subscribe to a topic.")
    }
}

/// The marker shown before a retained message.
pub open spec fn retain_marker(retain: bool) -> Seq<char> {
    if retain {
        "[R] "@
    } else {
        ""@
    }
}

/// How many payload characters a message line shows in a panel `width` columns
/// wide: twenty columns go to the frame, the time and the marker.
pub open spec fn payload_room(width: u16) -> int {
    if width >= 20 {
        width - 20
    } else {
        0
    }
}

/// The shown part of a payload text: its first `payload_room(width)` characters.
pub open spec fn shown_payload(text: Seq<char>, width: u16) -> Seq<char> {
    text.take(min_int(payload_room(width), text.len() as int))
}

/// A line of the message panel after its time: the retain marker, exactly when the
/// message is retained, and the start of the payload read as UTF-8 (invalid
/// sequences replaced).
pub fn message_line(retain: bool, payload: &Vec<u8>, width: u16) -> (r: (&'static str, String))
    ensures
        r.0@ == retain_marker(retain),
        r.1@ == shown_payload(utf8_lossy(payload@), width),
        valid_utf8(payload@) ==> r.1@ == shown_payload(decode_utf8(payload@), width),
{
    let marker = if retain {
        "[R] "
    } else {
        ""
    };
    let text = lossy_text(payload);
    let shown = take_chars(text.as_str(), width.saturating_sub(20) as usize);
    (marker, shown)
}

} // verus!
