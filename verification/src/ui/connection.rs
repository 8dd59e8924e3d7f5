use vstd::prelude::*;

use crate::app::state::{App, AppView, ConnectionState};
use crate::text::{
    append_decimal, byte_len, char_index, decimal, is_boundary, min_int, push_char, split_text_at,
    text_len,
};

verus! {

/// The text of an input with a cursor block at byte offset `cursor` (clamped to
/// the end): `▌` when the cursor shows, a space otherwise.
pub open spec fn cursor_text(value: Seq<char>, cursor: usize, show_cursor: bool) -> Seq<char> {
    let mark = if show_cursor {
        "▌"@
    } else {
        " "@
    };
    if value.len() == 0 {
        mark
    } else {
        let k = char_index(value, min_int(cursor as int, byte_len(value) as int));
        value.take(k) + mark + value.skip(k)
    }
}

/// When drawing an input does not panic: the clamped cursor is a character boundary.
pub open spec fn cursor_text_ok(value: Seq<char>, cursor: usize) -> bool {
    value.len() > 0 ==> is_boundary(value, min_int(cursor as int, byte_len(value) as int))
}

pub fn build_cursor_text(value: &str, cursor: usize, show_cursor: bool) -> (r: String)
    requires
        cursor_text_ok(value@, cursor),
    ensures
        r@ == cursor_text(value@, cursor, show_cursor),
{
    let mut r = String::new();
    if value.is_empty() {
        r.append(
            if show_cursor {
                "▌"
            } else {
                " "
            },
        );
        return r;
    }
    let len = text_len(value);
    let c = if cursor < len {
        cursor
    } else {
        len
    };
    let (before, after) = split_text_at(value, c);
    r.append(before);
    r.append(
        if show_cursor {
            "▌"
        } else {
            " "
        },
    );
    r.append(after);
    r
}

/// The password shown as bullets, the character at the cursor index drawn as
/// the cursor block when the field has the focus and the cursor shows, and a
/// cursor block after the bullets when the cursor is at or past the end.
pub open spec fn password_text(
    password: Seq<char>,
    cursor: usize,
    focused: bool,
    cursor_visible: bool,
) -> Seq<char> {
    if password.len() == 0 {
        cursor_text(Seq::empty(), cursor, focused && cursor_visible)
    } else {
        let masked = Seq::new(
            password.len(),
            |i: int|
                if focused && i == cursor && cursor_visible {
                    '▌'
                } else {
                    '•'
                },
        );
        masked + if focused && cursor >= byte_len(password) && cursor_visible {
            "▌"@
        } else {
            Seq::empty()
        }
    }
}

pub fn password_display(password: &str, cursor: usize, focused: bool, cursor_visible: bool) -> (r:
    String)
    ensures
        r@ == password_text(password@, cursor, focused, cursor_visible),
{
    if password.is_empty() {
        proof {
            reveal_strlit("");
        }
        return build_cursor_text("", cursor, focused && cursor_visible);
    }
    let n = password.unicode_len();
    let mut r = String::new();
    let mut i: usize = 0;
    let ghost masked = Seq::new(
        password@.len(),
        |i: int|
            if focused && i == cursor && cursor_visible {
                '▌'
            } else {
                '•'
            },
    );
    while i < n
        invariant
            n == password@.len(),
            0 <= i <= n,
            masked.len() == n,
            forall|j: int|
                0 <= j < n ==> #[trigger] masked[j] == if focused && j == cursor && cursor_visible {
                    '▌'
                } else {
                    '•'
                },
            r@ == masked.take(i as int),
        decreases n - i,
    {
        push_char(
            &mut r,
            if focused && i == cursor && cursor_visible {
                '▌'
            } else {
                '•'
            },
        );
        proof {
            assert(masked.take(i + 1) =~= masked.take(i as int).push(masked[i as int]));
        }
        i = i + 1;
    }
    proof {
        assert(masked.take(n as int) =~= masked);
    }
    if focused && cursor >= text_len(password) && cursor_visible {
        r.append("▌");
    } else {
        proof {
            assert(r@ =~= masked + Seq::<char>::empty());
        }
    }
    r
}

/// The transport switch label.
pub open spec fn transport_label(use_websockets: bool) -> Seq<char> {
    if use_websockets {
        "WS "@
    } else {
        "TCP"@
    }
}

pub fn transport_text(use_websockets: bool) -> (r: &'static str)
    ensures
        r@ == transport_label(use_websockets),
{
    if use_websockets {
        "WS "
    } else {
        "TCP"
    }
}

pub open spec fn transport_name(use_websockets: bool) -> Seq<char> {
    if use_websockets {
        "WS"@
    } else {
        "TCP"@
    }
}

/// The connection status shown beside the credentials.
pub open spec fn status_text(a: AppView) -> Seq<char> {
    let port = decimal(a.connection_config.port as nat);
    match a.connection_state {
        ConnectionState::Connected => "Connected to "@ + a.connection_config.host + ":"@ + port,
        ConnectionState::Connecting => "Connecting..."@,
        ConnectionState::Disconnected => transport_name(a.connection_config.use_websockets) + ":"@
            + port,
    }
}

pub fn connection_status_text(app: &App) -> (r: String)
    ensures
        r@ == status_text(app@),
{
    let mut r = String::new();
    match app.connection_state {
        ConnectionState::Connected => {
            r.append("Connected to ");
            r.append(app.connection_config.host.as_str());
            r.append(":");
            append_decimal(&mut r, app.connection_config.port as u64);
        },
        ConnectionState::Connecting => {
            r.append("Connecting...");
        },
        ConnectionState::Disconnected => {
            r.append(
                if app.connection_config.use_websockets {
                    "WS"
                } else {
                    "TCP"
                },
            );
            r.append(":");
            append_decimal(&mut r, app.connection_config.port as u64);
        },
    }
    proof {
        assert(r@ =~= status_text(app@));
    }
    r
}

} // verus!
