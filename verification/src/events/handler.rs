use vstd::prelude::*;

use crate::app::model::{next_focus_of, prev_focus_of};
use crate::app::state::{
    json_value_parses, sub_views, App, AppView, ConfigView, Focus, PublishFormView,
    SubscriptionView,
};
use crate::mqtt::client::{CmdView, MqttCmd};

verus! {

/// What a key press asks the application to do.
#[derive(Debug, Clone, Copy, PartialEq, Eq, Structural)]
pub enum Action {
    Quit,
    Connect,
    Disconnect,
    Subscribe,
    Unsubscribe,
    Publish,
    NextFocus,
    PrevFocus,
    ScrollUp,
    ScrollDown,
    Char(char),
    Backspace,
    Delete,
    Newline,
    CursorLeft,
    CursorRight,
    CursorUp,
    CursorDown,
    Home,
    End,
    ToggleWebSockets,
    ToggleRetain,
    ToggleJson,
    CycleValue,
    TopicUp,
    TopicDown,
    Noop,
}

/// No modifier key held.
pub const MOD_NONE: u8 = 0;

/// The Shift bit of a modifier set.
pub const MOD_SHIFT: u8 = 1;

/// The Control bit of a modifier set.
pub const MOD_CONTROL: u8 = 2;

/// The keys that the bindings tell apart.
#[derive(Debug, Clone, Copy, PartialEq, Eq, Structural)]
pub enum KeyCodeInput {
    Char(char),
    Tab,
    BackTab,
    Up,
    Down,
    Left,
    Right,
    Backspace,
    Delete,
    Enter,
    Home,
    End,
    PageUp,
    PageDown,
    Other,
}

/// A key press: the modifier bits held (Shift 1, Control 2, Alt 4, Super 8,
/// Hyper 16, Meta 32) and the key.
#[derive(Debug, Clone, Copy, PartialEq, Eq, Structural)]
pub struct KeyInput {
    pub modifiers: u8,
    pub code: KeyCodeInput,
}

/// `c` in upper case when it is an ASCII lowercase letter.
pub open spec fn ascii_upper(c: char) -> char {
    if 'a' <= c <= 'z' {
        ((c as u32) - 32) as char
    } else {
        c
    }
}

/// Upper-cases an ASCII lowercase letter; any other character stays.
pub fn to_ascii_upper(c: char) -> (r: char)
    ensures
        r == ascii_upper(c),
{
    if 'a' <= c && c <= 'z' {
        (((c as u32) - 32) as u8) as char
    } else {
        c
    }
}

/// The action bound to `key` while `focus` has the focus.
pub open spec fn key_action(key: KeyInput, focus: Focus) -> Action {
    let m = key.modifiers;
    match key.code {
        KeyCodeInput::Char(c) => if m == MOD_CONTROL {
            if c == 'q' {
                Action::Quit
            } else if c == 'c' {
                Action::Connect
            } else if c == 'd' {
                Action::Disconnect
            } else if c == 's' {
                Action::Subscribe
            } else if c == 'u' {
                Action::Unsubscribe
            } else if c == 'p' {
                Action::Publish
            } else if c == 'w' {
                Action::ToggleWebSockets
            } else if c == 'r' {
                Action::ToggleRetain
            } else if c == 'j' {
                Action::ToggleJson
            } else {
                Action::Noop
            }
        } else if m == MOD_NONE {
            if c == ' ' && (focus == Focus::SubscribeQos || focus == Focus::PublishQos) {
                Action::CycleValue
            } else {
                Action::Char(c)
            }
        } else if m == MOD_SHIFT {
            Action::Char(ascii_upper(c))
        } else {
            Action::Noop
        },
        KeyCodeInput::Tab => if m == MOD_NONE {
            Action::NextFocus
        } else {
            Action::Noop
        },
        KeyCodeInput::BackTab => if m == MOD_SHIFT {
            Action::PrevFocus
        } else {
            Action::Noop
        },
        KeyCodeInput::Up => if m == MOD_NONE {
            if focus == Focus::PublishPayload {
                Action::CursorUp
            } else {
                Action::TopicUp
            }
        } else {
            Action::Noop
        },
        KeyCodeInput::Down => if m == MOD_NONE {
            if focus == Focus::PublishPayload {
                Action::CursorDown
            } else {
                Action::TopicDown
            }
        } else {
            Action::Noop
        },
        KeyCodeInput::Left => if m == MOD_NONE {
            Action::CursorLeft
        } else {
            Action::Noop
        },
        KeyCodeInput::Right => if m == MOD_NONE {
            Action::CursorRight
        } else {
            Action::Noop
        },
        KeyCodeInput::Backspace => if m == MOD_NONE {
            Action::Backspace
        } else {
            Action::Noop
        },
        KeyCodeInput::Delete => if m == MOD_NONE {
            Action::Delete
        } else {
            Action::Noop
        },
        KeyCodeInput::Enter => if m == MOD_NONE {
            Action::Newline
        } else {
            Action::Noop
        },
        KeyCodeInput::Home => if m == MOD_NONE {
            Action::Home
        } else {
            Action::Noop
        },
        KeyCodeInput::End => if m == MOD_NONE {
            Action::End
        } else {
            Action::Noop
        },
        KeyCodeInput::PageUp => if m == MOD_NONE {
            Action::ScrollUp
        } else {
            Action::Noop
        },
        KeyCodeInput::PageDown => if m == MOD_NONE {
            Action::ScrollDown
        } else {
            Action::Noop
        },
        KeyCodeInput::Other => Action::Noop,
    }
}

/// The action for a key press; every key gives one (`Noop` for unbound keys).
pub fn key_to_action(key: KeyInput, app: &App) -> (r: Option<Action>)
    ensures
        r == Some(key_action(key, app.focus)),
{
    let m = key.modifiers;
    let focus = app.focus;
    let action = match key.code {
        KeyCodeInput::Char(c) => {
            if m == MOD_CONTROL {
                if c == 'q' {
                    Action::Quit
                } else if c == 'c' {
                    Action::Connect
                } else if c == 'd' {
                    Action::Disconnect
                } else if c == 's' {
                    Action::Subscribe
                } else if c == 'u' {
                    Action::Unsubscribe
                } else if c == 'p' {
                    Action::Publish
                } else if c == 'w' {
                    Action::ToggleWebSockets
                } else if c == 'r' {
                    Action::ToggleRetain
                } else if c == 'j' {
                    Action::ToggleJson
                } else {
                    Action::Noop
                }
            } else if m == MOD_NONE {
                if c == ' ' && (focus == Focus::SubscribeQos || focus == Focus::PublishQos) {
                    Action::CycleValue
                } else {
                    Action::Char(c)
                }
            } else if m == MOD_SHIFT {
                Action::Char(to_ascii_upper(c))
            } else {
                Action::Noop
            }
        },
        KeyCodeInput::Tab => if m == MOD_NONE {
            Action::NextFocus
        } else {
            Action::Noop
        },
        KeyCodeInput::BackTab => if m == MOD_SHIFT {
            Action::PrevFocus
        } else {
            Action::Noop
        },
        KeyCodeInput::Up => if m == MOD_NONE {
            if focus == Focus::PublishPayload {
                Action::CursorUp
            } else {
                Action::TopicUp
            }
        } else {
            Action::Noop
        },
        KeyCodeInput::Down => if m == MOD_NONE {
            if focus == Focus::PublishPayload {
                Action::CursorDown
            } else {
                Action::TopicDown
            }
        } else {
            Action::Noop
        },
        KeyCodeInput::Left => if m == MOD_NONE {
            Action::CursorLeft
        } else {
            Action::Noop
        },
        KeyCodeInput::Right => if m == MOD_NONE {
            Action::CursorRight
        } else {
            Action::Noop
        },
        KeyCodeInput::Backspace => if m == MOD_NONE {
            Action::Backspace
        } else {
            Action::Noop
        },
        KeyCodeInput::Delete => if m == MOD_NONE {
            Action::Delete
        } else {
            Action::Noop
        },
        KeyCodeInput::Enter => if m == MOD_NONE {
            Action::Newline
        } else {
            Action::Noop
        },
        KeyCodeInput::Home => if m == MOD_NONE {
            Action::Home
        } else {
            Action::Noop
        },
        KeyCodeInput::End => if m == MOD_NONE {
            Action::End
        } else {
            Action::Noop
        },
        KeyCodeInput::PageUp => if m == MOD_NONE {
            Action::ScrollUp
        } else {
            Action::Noop
        },
        KeyCodeInput::PageDown => if m == MOD_NONE {
            Action::ScrollDown
        } else {
            Action::Noop
        },
        KeyCodeInput::Other => Action::Noop,
    };
    Some(action)
}


/// The port after switching transport: the default ports 1883 (TCP) and 8083
/// (WebSocket) trade places; any other port stays.
pub open spec fn toggled_port(port: u16) -> u16 {
    if port == 1883 {
        8083
    } else if port == 8083 {
        1883
    } else {
        port
    }
}

/// The state after switching between TCP and WebSocket.
pub open spec fn after_toggle_websockets(a: AppView) -> AppView {
    let ws = !a.connection_config.use_websockets;
    AppView {
        connection_config: ConfigView {
            use_websockets: ws,
            port: toggled_port(a.connection_config.port),
            ..a.connection_config
        },
        status_message: "Transport: "@ + if ws {
            "WebSocket"@
        } else {
            "TCP"@
        },
        ..a
    }
}

/// The state after the space bar on a QoS field.
pub open spec fn after_cycle_value(a: AppView) -> AppView {
    match a.focus {
        Focus::SubscribeQos => AppView { new_sub_qos: ((a.new_sub_qos + 1) % 3) as u8, ..a },
        Focus::PublishQos => AppView {
            publish_qos_idx: ((a.publish_qos_idx + 1) % 3) as usize,
            publish_form: PublishFormView {
                qos: ((a.publish_qos_idx + 1) % 3) as u8,
                ..a.publish_form
            },
            ..a
        },
        _ => a,
    }
}

/// The state after scrolling the messages of the focused topic: `older` moves
/// one message further back (saturating), otherwise one message forward (down to 0).
pub open spec fn after_scroll(a: AppView, older: bool) -> AppView {
    let f = a.focused_subscription as int;
    if f < a.subscriptions.len() {
        let off = a.subscriptions[f].scroll_offset;
        let new_off = if older {
            if off == usize::MAX {
                off
            } else {
                (off + 1) as usize
            }
        } else {
            if off == 0 {
                off
            } else {
                (off - 1) as usize
            }
        };
        AppView {
            subscriptions: a.subscriptions.update(
                f,
                SubscriptionView { scroll_offset: new_off, ..a.subscriptions[f] },
            ),
            ..a
        }
    } else {
        a
    }
}

/// When performing `action` does not panic.
pub open spec fn action_ok(a: AppView, action: Action) -> bool {
    match action {
        Action::Char(c) => a.insert_char_ok(c),
        Action::Backspace => a.backspace_ok(),
        Action::Delete => a.delete_ok(),
        Action::Newline => a.newline_ok(),
        Action::CursorRight => a.cursor_right_ok(),
        Action::CursorUp => a.cursor_up_ok(),
        Action::CursorDown => a.cursor_down_ok(),
        Action::End => a.end_ok(),
        Action::CycleValue => (a.focus == Focus::SubscribeQos ==> a.new_sub_qos < 255) && (
        a.focus == Focus::PublishQos ==> a.publish_qos_idx < usize::MAX),
        Action::TopicDown => a.focused_subscription < usize::MAX,
        _ => true,
    }
}

/// The state after performing `action`.
pub open spec fn after_action(a: AppView, action: Action) -> AppView {
    match action {
        Action::Quit => AppView { should_quit: true, ..a }.queued(CmdView::Disconnect),
        Action::Connect => a.after_connect(),
        Action::Disconnect => a.after_disconnect(),
        Action::Subscribe => a.after_subscribe(),
        Action::Unsubscribe => a.after_unsubscribe(),
        Action::Publish => a.after_publish(json_value_parses(a.payload_text())),
        Action::NextFocus => AppView { focus: next_focus_of(a.focus), ..a },
        Action::PrevFocus => AppView { focus: prev_focus_of(a.focus), ..a },
        Action::Char(c) => a.after_insert_char(c),
        Action::Backspace => a.after_backspace(),
        Action::Delete => a.after_delete(),
        Action::Newline => a.after_newline(),
        Action::CursorLeft => a.after_cursor_left(),
        Action::CursorRight => a.after_cursor_right(),
        Action::CursorUp => a.after_cursor_up(),
        Action::CursorDown => a.after_cursor_down(),
        Action::Home => a.after_home(),
        Action::End => a.after_end(),
        Action::ToggleWebSockets => after_toggle_websockets(a),
        Action::ToggleRetain => AppView {
            publish_form: PublishFormView { retain: !a.publish_form.retain, ..a.publish_form },
            ..a
        },
        Action::ToggleJson => AppView {
            publish_form: PublishFormView { is_json: !a.publish_form.is_json, ..a.publish_form },
            ..a
        },
        Action::CycleValue => after_cycle_value(a),
        Action::TopicUp => if a.focused_subscription > 0 {
            AppView { focused_subscription: (a.focused_subscription - 1) as usize, ..a }
        } else {
            a
        },
        Action::TopicDown => if a.focused_subscription + 1 < a.subscriptions.len() {
            AppView { focused_subscription: (a.focused_subscription + 1) as usize, ..a }
        } else {
            a
        },
        Action::ScrollUp => after_scroll(a, true),
        Action::ScrollDown => after_scroll(a, false),
        Action::Noop => a,
    }
}

/// Performs `action` on the application state.
pub fn handle_action(app: &mut App, action: Action)
    requires
        action_ok(old(app)@, action),
    ensures
        final(app)@ == after_action(old(app)@, action),
{
    match action {
        Action::Quit => {
            app.should_quit = true;
            match &mut app.cmd_queue {
                Some(q) => {
                    let ghost before = q@;
                    q.push(MqttCmd::Disconnect);
                    proof {
                        assert(crate::app::state::cmd_views(q@) =~= crate::app::state::cmd_views(
                            before,
                        ).push(CmdView::Disconnect));
                    }
                },
                None => {},
            }
        },
        Action::Connect => app.connect(),
        Action::Disconnect => app.disconnect(),
        Action::Subscribe => app.subscribe(),
        Action::Unsubscribe => app.unsubscribe(),
        Action::Publish => app.publish(),
        Action::NextFocus => app.next_focus(),
        Action::PrevFocus => app.prev_focus(),
        Action::Char(c) => app.insert_char(c),
        Action::Backspace => app.backspace(),
        Action::Delete => app.delete(),
        Action::Newline => app.insert_newline(),
        Action::CursorLeft => app.move_cursor_left(),
        Action::CursorRight => app.move_cursor_right(),
        Action::CursorUp => app.move_cursor_up(),
        Action::CursorDown => app.move_cursor_down(),
        Action::Home => app.move_to_home(),
        Action::End => app.move_to_end(),
        Action::ToggleWebSockets => {
            app.connection_config.use_websockets = !app.connection_config.use_websockets;
            if app.connection_config.port == 1883 {
                app.connection_config.port = 8083;
            } else if app.connection_config.port == 8083 {
                app.connection_config.port = 1883;
            }
            let mut msg = String::new();
            msg.append("Transport: ");
            msg.append(
                if app.connection_config.use_websockets {
                    "WebSocket"
                } else {
                    "TCP"
                },
            );
            app.status_message = msg;
        },
        Action::ToggleRetain => {
            app.publish_form.retain = !app.publish_form.retain;
        },
        Action::ToggleJson => {
            app.publish_form.is_json = !app.publish_form.is_json;
        },
        Action::CycleValue => match app.focus {
            Focus::SubscribeQos => app.cycle_qos_sub(),
            Focus::PublishQos => app.cycle_qos_publish(),
            _ => {},
        },
        Action::TopicUp => {
            if app.focused_subscription > 0 {
                app.focused_subscription -= 1;
            }
        },
        Action::TopicDown => {
            if app.focused_subscription + 1 < app.subscriptions.len() {
                app.focused_subscription += 1;
            }
        },
        Action::ScrollUp => {
            let f = app.focused_subscription;
            if f < app.subscriptions.len() {
                let ghost before = app.subscriptions@;
                app.subscriptions[f].scroll_offset = app.subscriptions[f].scroll_offset.saturating_add(
                    1,
                );
                proof {
                    assert(sub_views(app.subscriptions@) =~= sub_views(before).update(
                        f as int,
                        SubscriptionView {
                            scroll_offset: app.subscriptions@[f as int].scroll_offset,
                            ..sub_views(before)[f as int]
                        },
                    ));
                }
            }
        },
        Action::ScrollDown => {
            let f = app.focused_subscription;
            if f < app.subscriptions.len() {
                let ghost before = app.subscriptions@;
                app.subscriptions[f].scroll_offset = app.subscriptions[f].scroll_offset.saturating_sub(
                    1,
                );
                proof {
                    assert(sub_views(app.subscriptions@) =~= sub_views(before).update(
                        f as int,
                        SubscriptionView {
                            scroll_offset: app.subscriptions@[f as int].scroll_offset,
                            ..sub_views(before)[f as int]
                        },
                    ));
                }
            }
        },
        Action::Noop => {},
    }
}

} // verus!
