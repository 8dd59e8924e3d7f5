//! Properties of the client that hold across its operations.

use vstd::prelude::*;
use vstd::utf8::encode_utf8;

use crate::app::model::{
    color_used, deliver, initial_view, lemma_new_topic_color_unused, lemma_topic_index_valid, next_focus_of, prev_focus_of, push_capped,
    text_field_of, topic_index, TextField,
};
use crate::app::state::{
    topic_color,
    AppView, ConnectionState, Focus, MessageView, SubscriptionView, MAX_MESSAGES_PER_TOPIC,
};
use crate::events::handler::{action_ok, after_action, after_toggle_websockets, Action};
use crate::mqtt::client::{CmdView, EventView};
use crate::mqtt::topic::{
    lemma_topic_levels_nonempty, levels_match, receives, topic_levels, topic_matches,
};
use crate::text::{
    byte_len, char_index, insert_at_byte, is_ascii_char, is_boundary, lemma_boundary_le_len,
    join_with, lemma_char_index_unique, lemma_insert_byte_len, remove_at_byte, trimmed,
};

verus! {

/// No topic is subscribed twice.
pub open spec fn topics_unique(subs: Seq<SubscriptionView>) -> bool {
    forall|i: int, j: int|
        0 <= i < subs.len() && 0 <= j < subs.len() && i != j ==> #[trigger] subs[i].topic
            != #[trigger] subs[j].topic
}

/// No topic holds more messages than it keeps.
pub open spec fn messages_capped(subs: Seq<SubscriptionView>) -> bool {
    forall|i: int| 0 <= i < subs.len() ==> #[trigger] subs[i].messages.len() <= MAX_MESSAGES_PER_TOPIC
}

/// The consistency that the client keeps: topics are unique and capped, the
/// focused topic exists (or is 0 when there is none), the payload editor has a
/// current line, and every QoS is 0, 1 or 2.
pub open spec fn well_formed(a: AppView) -> bool {
    &&& topics_unique(a.subscriptions)
    &&& messages_capped(a.subscriptions)
    &&& forall|i: int| 0 <= i < a.subscriptions.len() ==> #[trigger] a.subscriptions[i].qos <= 2
    &&& (a.subscriptions.len() == 0 ==> a.focused_subscription == 0)
    &&& (a.subscriptions.len() > 0 ==> a.focused_subscription < a.subscriptions.len())
    &&& a.publish_form.cursor_line < a.publish_form.payload_lines.len()
    &&& a.new_sub_qos <= 2
    &&& a.publish_form.qos <= 2
    &&& a.publish_qos_idx <= 2
}

/// Tab and Shift+Tab undo each other.
pub proof fn law_focus_next_prev_inverse(f: Focus)
    ensures
        prev_focus_of(next_focus_of(f)) == f,
        next_focus_of(prev_focus_of(f)) == f,
{
}

/// Tab visits the ten fields in turn and comes back after ten presses.
pub proof fn law_focus_cycle(f: Focus)
    ensures
        next_focus_of(
            next_focus_of(
                next_focus_of(
                    next_focus_of(
                        next_focus_of(
                            next_focus_of(
                                next_focus_of(next_focus_of(next_focus_of(next_focus_of(f)))),
                            ),
                        ),
                    ),
                ),
            ),
        ) == f,
{
}

/// Switching the transport twice restores the connection settings.
pub proof fn law_toggle_transport_twice(a: AppView)
    ensures
        after_toggle_websockets(after_toggle_websockets(a)).connection_config
            == a.connection_config,
{
}

/// The space bar on a QoS field steps its value through 0, 1, 2 and back: three
/// presses restore a value of 0, 1 or 2.
pub proof fn law_cycle_qos_three_times(a: AppView)
    requires
        a.focus == Focus::SubscribeQos || a.focus == Focus::PublishQos,
        a.new_sub_qos <= 2,
        a.publish_qos_idx <= 2,
        a.publish_form.qos == a.publish_qos_idx,
    ensures
        after_action(after_action(after_action(a, Action::CycleValue), Action::CycleValue), Action::CycleValue)
            == a,
{
    let b = after_action(after_action(after_action(a, Action::CycleValue), Action::CycleValue), Action::CycleValue);
    assert(b =~= a);
}

/// Subscribing and publishing queue nothing while the client is not connected.
pub proof fn law_nothing_sent_while_disconnected(a: AppView, payload_is_json: bool)
    requires
        a.connection_state != ConnectionState::Connected,
    ensures
        a.after_subscribe().cmd_queue == a.cmd_queue,
        a.after_publish(payload_is_json).cmd_queue == a.cmd_queue,
        a.after_unsubscribe().cmd_queue == a.cmd_queue,
{
}

/// A payload marked as JSON that does not parse is never published: nothing is
/// queued and the status says why.
pub proof fn law_invalid_json_not_published(a: AppView)
    requires
        trimmed(a.publish_form.topic).len() > 0,
        a.publish_form.is_json,
        !json_value_parses_of(a),
    ensures
        after_action(a, Action::Publish).cmd_queue == a.cmd_queue,
        after_action(a, Action::Publish).status_message == "Invalid JSON payload"@,
{
}

pub open spec fn json_value_parses_of(a: AppView) -> bool {
    crate::app::state::json_value_parses(a.payload_text())
}

/// A message on a topic that no subscription receives (no filter is the topic or
/// takes it in) changes nothing.
pub proof fn law_unsubscribed_message_dropped(a: AppView, topic: Seq<char>, payload: Seq<u8>, retain: bool, now: i64)
    requires
        forall|i: int| 0 <= i < a.subscriptions.len() ==> !receives(#[trigger] a.subscriptions[i].topic, topic),
    ensures
        a.after_event(EventView::MessageReceived { topic, payload, retain }, now) == a,
{
    let m = MessageView { payload, retain, timestamp: now };
    assert(deliver(a.subscriptions, topic, m) =~= a.subscriptions);
}

/// A received message is appended to every subscription whose filter is its topic
/// or takes its topic in, the oldest message leaving when that subscription is
/// full; the other subscriptions do not change.
pub proof fn law_message_delivered(a: AppView, topic: Seq<char>, payload: Seq<u8>, retain: bool, now: i64)
    ensures
        ({
            let b = a.after_event(EventView::MessageReceived { topic, payload, retain }, now);
            &&& b.subscriptions.len() == a.subscriptions.len()
            &&& forall|i: int|
                0 <= i < a.subscriptions.len() && receives(a.subscriptions[i].topic, topic)
                    ==> #[trigger] b.subscriptions[i] == (SubscriptionView {
                    messages: push_capped(
                        a.subscriptions[i].messages,
                        MessageView { payload, retain, timestamp: now },
                    ),
                    ..a.subscriptions[i]
                })
            &&& forall|i: int|
                0 <= i < a.subscriptions.len() && !receives(a.subscriptions[i].topic, topic)
                    ==> #[trigger] b.subscriptions[i] == a.subscriptions[i]
        }),
{
}

/// A topic name without wildcard characters is taken in by a subscription to
/// that very name.
pub proof fn law_exact_topic_matches(t: Seq<char>)
    requires
        forall|p: int| 0 <= p < t.len() ==> #[trigger] t[p] != '#' && t[p] != '+',
    ensures
        topic_matches(t, t),
{
    lemma_no_hash_level(t);
    lemma_levels_match_self(topic_levels(t));
}

proof fn lemma_no_hash_level(t: Seq<char>)
    requires
        forall|p: int| 0 <= p < t.len() ==> #[trigger] t[p] != '#',
    ensures
        forall|k: int| 0 <= k < topic_levels(t).len() ==> #[trigger] topic_levels(t)[k] != seq!['#'],
    decreases t.len(),
{
    if t.len() > 0 {
        let u = t.drop_last();
        assert forall|p: int| 0 <= p < u.len() implies #[trigger] u[p] != '#' by {
            assert(u[p] == t[p]);
        }
        lemma_no_hash_level(u);
        lemma_topic_levels_nonempty(u);
        let l = topic_levels(u);
        let c = t[t.len() - 1];
        assert(c != '#');
        let lt = topic_levels(t);
        assert forall|k: int| 0 <= k < lt.len() implies #[trigger] lt[k] != seq!['#'] by {
            if c == '/' {
                if k < l.len() {
                    assert(lt[k] == l[k]);
                } else {
                    assert(lt[k].len() == 0);
                }
            } else if k < l.len() - 1 {
                assert(lt[k] == l[k]);
            } else {
                let last = l.last().push(c);
                assert(lt[k] == last);
                assert(last.last() == c);
                if last == seq!['#'] {
                    assert(seq!['#'].last() == '#');
                }
            }
        }
    } else {
        assert(topic_levels(t)[0].len() == 0);
        assert(seq!['#'].len() == 1);
    }
}

proof fn lemma_levels_match_self(l: Seq<Seq<char>>)
    requires
        forall|k: int| 0 <= k < l.len() ==> #[trigger] l[k] != seq!['#'],
    ensures
        levels_match(l, l),
    decreases l.len(),
{
    if l.len() > 0 {
        let r = l.drop_first();
        assert forall|k: int| 0 <= k < r.len() implies #[trigger] r[k] != seq!['#'] by {
            assert(r[k] == l[k + 1]);
        }
        lemma_levels_match_self(r);
    }
}

/// The freshly started client is well formed.
pub proof fn law_initial_well_formed(client_id: Seq<char>)
    ensures
        well_formed(initial_view(client_id)),
{
}


proof fn lemma_subscribe_keeps_well_formed(a: AppView)
    requires
        well_formed(a),
    ensures
        well_formed(a.after_subscribe()),
{
    let topic = trimmed(a.new_sub_topic);
    lemma_topic_index_valid(a.subscriptions, topic);
    let b = a.after_subscribe();
    if topic.len() > 0 && a.connection_state == ConnectionState::Connected {
        match topic_index(a.subscriptions, topic) {
            None => {
                assert(forall|i: int|
                    0 <= i < a.subscriptions.len() ==> b.subscriptions[i] == a.subscriptions[i]);
                assert(topics_unique(b.subscriptions));
            },
            Some(k) => {
                assert(forall|i: int|
                    0 <= i < a.subscriptions.len() ==> b.subscriptions[i].topic
                        == a.subscriptions[i].topic);
                assert(topics_unique(b.subscriptions));
            },
        }
    }
}

proof fn lemma_unsubscribe_keeps_well_formed(a: AppView)
    requires
        well_formed(a),
    ensures
        well_formed(a.after_unsubscribe()),
{
    let b = a.after_unsubscribe();
    let n = a.subscriptions.len();
    if n > 0 {
        let idx = if (a.focused_subscription as int) < n - 1 {
            a.focused_subscription as int
        } else {
            n - 1
        };
        assert forall|i: int| 0 <= i < b.subscriptions.len() implies #[trigger] b.subscriptions[i]
            == a.subscriptions[if i < idx {
            i
        } else {
            i + 1
        }] by {}
        assert forall|i: int, j: int|
            0 <= i < b.subscriptions.len() && 0 <= j < b.subscriptions.len() && i != j implies #[trigger] b.subscriptions[i].topic
            != #[trigger] b.subscriptions[j].topic by {
            let ii = if i < idx {
                i
            } else {
                i + 1
            };
            let jj = if j < idx {
                j
            } else {
                j + 1
            };
            assert(b.subscriptions[i] == a.subscriptions[ii]);
            assert(b.subscriptions[j] == a.subscriptions[jj]);
        }
        assert forall|i: int| 0 <= i < b.subscriptions.len() implies #[trigger] b.subscriptions[i].messages.len()
            <= MAX_MESSAGES_PER_TOPIC && b.subscriptions[i].qos <= 2 by {
            let ii = if i < idx {
                i
            } else {
                i + 1
            };
            assert(b.subscriptions[i] == a.subscriptions[ii]);
        }
    }
}

/// Every event of the session task keeps the client well formed.
pub proof fn law_event_keeps_well_formed(a: AppView, e: EventView, now: i64)
    requires
        well_formed(a),
    ensures
        well_formed(a.after_event(e, now)),
{
    match e {
        EventView::MessageReceived { topic, payload, retain } => {
            let b = a.after_event(e, now);
            assert(forall|i: int|
                0 <= i < a.subscriptions.len() ==> b.subscriptions[i].topic
                    == a.subscriptions[i].topic && b.subscriptions[i].qos
                    == a.subscriptions[i].qos);
            assert(topics_unique(b.subscriptions));
            assert(messages_capped(b.subscriptions));
        },
        _ => {},
    }
}

/// The parts of the state that `well_formed` reads are the same in `a` and `b`.
pub open spec fn same_shape(a: AppView, b: AppView) -> bool {
    &&& b.subscriptions == a.subscriptions
    &&& b.focused_subscription == a.focused_subscription
    &&& b.publish_form.cursor_line == a.publish_form.cursor_line
    &&& b.publish_form.payload_lines.len() == a.publish_form.payload_lines.len()
    &&& b.new_sub_qos == a.new_sub_qos
    &&& b.publish_form.qos == a.publish_form.qos
    &&& b.publish_qos_idx == a.publish_qos_idx
}

proof fn lemma_same_shape(a: AppView, b: AppView)
    requires
        well_formed(a),
        same_shape(a, b),
    ensures
        well_formed(b),
{
}

proof fn lemma_edits_keep_shape(a: AppView, c: char)
    requires
        well_formed(a),
    ensures
        same_shape(a, a.after_insert_char(c)),
        same_shape(a, a.after_backspace()),
        same_shape(a, a.after_delete()),
        same_shape(a, a.after_cursor_left()),
        same_shape(a, a.after_cursor_right()),
        same_shape(a, a.after_home()),
        same_shape(a, a.after_end()),
{
}

proof fn lemma_line_moves_keep_well_formed(a: AppView)
    requires
        well_formed(a),
    ensures
        well_formed(a.after_cursor_up()),
        well_formed(a.after_cursor_down()),
        well_formed(a.after_newline()),
{
}

proof fn lemma_commands_keep_well_formed(a: AppView, json: bool)
    requires
        well_formed(a),
    ensures
        well_formed(a.after_connect()),
        well_formed(a.after_disconnect()),
        well_formed(a.after_publish(json)),
        well_formed(AppView { should_quit: true, ..a }.queued(CmdView::Disconnect)),
{
}

proof fn lemma_scroll_keeps_well_formed(a: AppView, older: bool)
    requires
        well_formed(a),
    ensures
        well_formed(crate::events::handler::after_scroll(a, older)),
{
    let b = crate::events::handler::after_scroll(a, older);
    assert(forall|i: int|
        0 <= i < a.subscriptions.len() ==> b.subscriptions[i].topic == a.subscriptions[i].topic
            && b.subscriptions[i].qos == a.subscriptions[i].qos && b.subscriptions[i].messages
            == a.subscriptions[i].messages);
}

/// Every user action keeps the client well formed.
pub proof fn law_action_keeps_well_formed(a: AppView, action: Action)
    requires
        well_formed(a),
        action_ok(a, action),
    ensures
        well_formed(after_action(a, action)),
{
    match action {
        Action::Subscribe => lemma_subscribe_keeps_well_formed(a),
        Action::Unsubscribe => lemma_unsubscribe_keeps_well_formed(a),
        Action::ScrollUp => lemma_scroll_keeps_well_formed(a, true),
        Action::ScrollDown => lemma_scroll_keeps_well_formed(a, false),
        Action::Char(c) => {
            lemma_edits_keep_shape(a, c);
            lemma_same_shape(a, after_action(a, action));
        },
        Action::Backspace | Action::Delete | Action::CursorLeft | Action::CursorRight
        | Action::Home | Action::End => {
            lemma_edits_keep_shape(a, ' ');
            lemma_same_shape(a, after_action(a, action));
        },
        Action::CursorUp | Action::CursorDown | Action::Newline => {
            lemma_line_moves_keep_well_formed(a);
        },
        Action::Connect | Action::Disconnect | Action::Quit => {
            lemma_commands_keep_well_formed(a, true);
        },
        Action::Publish => {
            lemma_commands_keep_well_formed(a, json_value_parses_of(a));
        },
        _ => {},
    }
}

/// In a well-formed client the moves that index the payload lines, the QoS
/// cycling and the topic navigation never panic.
pub proof fn law_well_formed_moves_are_safe(a: AppView)
    requires
        well_formed(a),
    ensures
        action_ok(a, Action::CursorUp),
        action_ok(a, Action::End),
        action_ok(a, Action::CycleValue),
{
}


/// Removing the ASCII character just inserted at a boundary gives the text back.
pub proof fn lemma_insert_then_remove(s: Seq<char>, b: int, c: char)
    requires
        is_boundary(s, b),
        is_ascii_char(c),
    ensures
        is_boundary(insert_at_byte(s, b, c), b),
        0 <= b <= byte_len(s),
        b < byte_len(insert_at_byte(s, b, c)),
        byte_len(insert_at_byte(s, b, c)) == byte_len(s) + 1,
        remove_at_byte(insert_at_byte(s, b, c), b) == s,
{
    let k = char_index(s, b);
    lemma_boundary_le_len(s, b);
    lemma_insert_byte_len(s, b, c);
    let t = insert_at_byte(s, b, c);
    assert(t.take(k) =~= s.take(k));
    lemma_char_index_unique(t, k);
    assert(t.skip(k + 1) =~= s.skip(k));
    assert(s.take(k) + s.skip(k) =~= s);
}

/// Typing an ASCII character in any field but the port and then pressing
/// Backspace restores the state.
pub proof fn law_type_then_backspace(a: AppView, c: char)
    requires
        a.focus != Focus::Port,
        a.insert_char_ok(c),
        is_ascii_char(c),
        text_field_of(a.focus) matches Some(t) ==> a.field_cursor(t) < usize::MAX,
        a.focus == Focus::PublishPayload ==> a.publish_form.cursor_col < usize::MAX,
    ensures
        a.after_insert_char(c).backspace_ok(),
        a.after_insert_char(c).after_backspace() == a,
{
    match text_field_of(a.focus) {
        Some(t) => {
            let s = a.field_text(t);
            let cur = a.field_cursor(t);
            lemma_insert_then_remove(s, cur as int, c);
            let b = a.after_insert_char(c);
            assert(b.field_text(t) == insert_at_byte(s, cur as int, c));
            assert(b.field_cursor(t) == cur + 1);
            assert(b.after_backspace() =~= a);
        },
        None => {
            if a.focus == Focus::PublishPayload {
                let line = a.current_line();
                let col = a.publish_form.cursor_col;
                lemma_insert_then_remove(line, col as int, c);
                let b = a.after_insert_char(c);
                assert(b.current_line() == insert_at_byte(line, col as int, c));
                assert(b.publish_form.cursor_col == col + 1);
                assert(b.line_in_range());
                assert(b.backspace_ok());
                assert(b.publish_form.payload_lines.update(
                    a.publish_form.cursor_line as int,
                    line,
                ) =~= a.publish_form.payload_lines);
                assert(b.after_backspace() =~= a);
            }
        },
    }
}

/// Subscribing to a new topic and then unsubscribing (the new topic has the
/// focus) gives back the list of subscriptions.
pub proof fn law_subscribe_then_unsubscribe(a: AppView)
    requires
        trimmed(a.new_sub_topic).len() > 0,
        a.connection_state == ConnectionState::Connected,
        a.subscriptions.len() < usize::MAX,
        forall|i: int| 0 <= i < a.subscriptions.len() ==> a.subscriptions[i].topic != trimmed(
            a.new_sub_topic,
        ),
    ensures
        a.after_subscribe().after_unsubscribe().subscriptions == a.subscriptions,
{
    let topic = trimmed(a.new_sub_topic);
    lemma_topic_index_valid(a.subscriptions, topic);
    let b = a.after_subscribe();
    assert(b.focused_subscription == a.subscriptions.len());
    assert(b.subscriptions.remove(a.subscriptions.len() as int) =~= a.subscriptions);
}


/// Every topic of `b` that `a` also lists has the colour it had in `a`.
pub open spec fn colors_kept(a: Seq<SubscriptionView>, b: Seq<SubscriptionView>) -> bool {
    forall|i: int, j: int|
        0 <= i < b.len() && 0 <= j < a.len() && #[trigger] b[i].topic == #[trigger] a[j].topic
            ==> b[i].color == a[j].color
}

proof fn lemma_colors_kept_pointwise(a: Seq<SubscriptionView>, b: Seq<SubscriptionView>)
    requires
        topics_unique(a),
        b.len() >= a.len(),
        forall|i: int| 0 <= i < a.len() ==> #[trigger] b[i].topic == a[i].topic && b[i].color == a[i].color,
        forall|i: int| a.len() <= i < b.len() ==> forall|j: int| 0 <= j < a.len() ==> #[trigger] b[i].topic != a[j].topic,
    ensures
        colors_kept(a, b),
{
    assert forall|i: int, j: int|
        0 <= i < b.len() && 0 <= j < a.len() && #[trigger] b[i].topic == #[trigger] a[j].topic implies b[i].color
        == a[j].color by {
        if i < a.len() {
            if i != j {
                assert(a[i].topic == a[j].topic);
            }
        }
    }
}

/// A topic keeps its colour whatever the user does: colours are never reassigned.
pub proof fn law_action_keeps_colors(a: AppView, action: Action)
    requires
        well_formed(a),
    ensures
        colors_kept(a.subscriptions, after_action(a, action).subscriptions),
{
    let subs = a.subscriptions;
    match action {
        Action::Subscribe => {
            let topic = trimmed(a.new_sub_topic);
            lemma_topic_index_valid(subs, topic);
            let b = a.after_subscribe().subscriptions;
            lemma_colors_kept_pointwise(subs, b);
        },
        Action::Unsubscribe => {
            let b = a.after_unsubscribe().subscriptions;
            let n = subs.len();
            if n > 0 {
                let idx = if (a.focused_subscription as int) < n - 1 {
                    a.focused_subscription as int
                } else {
                    n - 1
                };
                assert forall|i: int, j: int|
                    0 <= i < b.len() && 0 <= j < subs.len() && #[trigger] b[i].topic
                        == #[trigger] subs[j].topic implies b[i].color == subs[j].color by {
                    let ii = if i < idx {
                        i
                    } else {
                        i + 1
                    };
                    assert(b[i] == subs[ii]);
                    if ii != j {
                        assert(subs[ii].topic == subs[j].topic);
                    }
                }
            }
        },
        Action::ScrollUp | Action::ScrollDown => {
            let b = after_action(a, action).subscriptions;
            lemma_colors_kept_pointwise(subs, b);
        },
        _ => {
            let b = after_action(a, action).subscriptions;
            assert(b == subs) by {
                match action {
                    Action::Char(c) => lemma_edits_keep_shape(a, c),
                    Action::Backspace | Action::Delete | Action::CursorLeft | Action::CursorRight
                    | Action::Home | Action::End => lemma_edits_keep_shape(a, ' '),
                    _ => {},
                }
            }
            lemma_colors_kept_pointwise(subs, b);
        },
    }
}

/// Events of the session task never change a topic's colour.
pub proof fn law_event_keeps_colors(a: AppView, e: EventView, now: i64)
    requires
        well_formed(a),
    ensures
        colors_kept(a.subscriptions, a.after_event(e, now).subscriptions),
{
    let b = a.after_event(e, now).subscriptions;
    match e {
        _ => {},
    }
    lemma_colors_kept_pointwise(a.subscriptions, b);
}

/// No two listed topics share a colour.
pub open spec fn colors_distinct(subs: Seq<SubscriptionView>) -> bool {
    forall|i: int, j: int|
        0 <= i < subs.len() && 0 <= j < subs.len() && i != j ==> #[trigger] subs[i].color
            != #[trigger] subs[j].color
}

/// Topics are coloured round robin by their number, and each topic gets its own
/// colour: a newly subscribed topic gets the palette entry at the number of listed
/// topics when no listed topic has it, and while fewer than twelve topics are
/// listed it always gets a colour that no listed topic has.
pub proof fn law_new_topic_gets_free_color(a: AppView)
    requires
        a.subscriptions.len() < 12,
        trimmed(a.new_sub_topic).len() > 0,
        a.connection_state == ConnectionState::Connected,
        forall|i: int|
            0 <= i < a.subscriptions.len() ==> #[trigger] a.subscriptions[i].topic != trimmed(
                a.new_sub_topic,
            ),
    ensures
        ({
            let b = a.after_subscribe().subscriptions;
            &&& b.len() == a.subscriptions.len() + 1
            &&& b.last().topic == trimmed(a.new_sub_topic)
            &&& !color_used(a.subscriptions, b.last().color)
            &&& !color_used(a.subscriptions, topic_color(a.subscriptions.len())) ==> b.last().color
                == topic_color(a.subscriptions.len())
        }),
{
    lemma_topic_index_valid(a.subscriptions, trimmed(a.new_sub_topic));
    lemma_new_topic_color_unused(a.subscriptions);
}

proof fn lemma_subscribe_keeps_colors_distinct(a: AppView)
    requires
        colors_distinct(a.subscriptions),
        a.subscriptions.len() < 12,
    ensures
        colors_distinct(a.after_subscribe().subscriptions),
{
    let subs = a.subscriptions;
    let topic = trimmed(a.new_sub_topic);
    lemma_topic_index_valid(subs, topic);
    lemma_new_topic_color_unused(subs);
    let b = a.after_subscribe().subscriptions;
    if topic.len() > 0 && a.connection_state == ConnectionState::Connected {
        match topic_index(subs, topic) {
            None => {
                assert forall|i: int, j: int|
                    0 <= i < b.len() && 0 <= j < b.len() && i != j implies #[trigger] b[i].color
                    != #[trigger] b[j].color by {
                    if i == subs.len() {
                        assert(b[j] == subs[j]);
                    } else if j == subs.len() {
                        assert(b[i] == subs[i]);
                    } else {
                        assert(b[i] == subs[i] && b[j] == subs[j]);
                    }
                }
            },
            Some(k) => {
                assert(forall|i: int| 0 <= i < subs.len() ==> #[trigger] b[i].color == subs[i].color);
            },
        }
    }
}

/// Colours stay distinct whatever the user does, provided that fewer than twelve
/// topics are listed when a topic is subscribed.
pub proof fn law_action_keeps_colors_distinct(a: AppView, action: Action)
    requires
        well_formed(a),
        colors_distinct(a.subscriptions),
        action is Subscribe ==> a.subscriptions.len() < 12,
    ensures
        colors_distinct(after_action(a, action).subscriptions),
{
    let subs = a.subscriptions;
    match action {
        Action::Subscribe => lemma_subscribe_keeps_colors_distinct(a),
        Action::Unsubscribe => {
            let b = a.after_unsubscribe().subscriptions;
            let n = subs.len();
            if n > 0 {
                let idx = if (a.focused_subscription as int) < n - 1 {
                    a.focused_subscription as int
                } else {
                    n - 1
                };
                assert forall|i: int, j: int|
                    0 <= i < b.len() && 0 <= j < b.len() && i != j implies #[trigger] b[i].color
                    != #[trigger] b[j].color by {
                    let ii = if i < idx {
                        i
                    } else {
                        i + 1
                    };
                    let jj = if j < idx {
                        j
                    } else {
                        j + 1
                    };
                    assert(b[i] == subs[ii]);
                    assert(b[j] == subs[jj]);
                }
            }
        },
        Action::ScrollUp | Action::ScrollDown => {
            let b = after_action(a, action).subscriptions;
            assert(b.len() == subs.len());
            assert(forall|i: int| 0 <= i < subs.len() ==> #[trigger] b[i].color == subs[i].color);
        },
        _ => {
            let b = after_action(a, action).subscriptions;
            assert(b == subs) by {
                match action {
                    Action::Char(c) => lemma_edits_keep_shape(a, c),
                    Action::Backspace | Action::Delete | Action::CursorLeft | Action::CursorRight
                    | Action::Home | Action::End => lemma_edits_keep_shape(a, ' '),
                    _ => {},
                }
            }
        },
    }
}

/// Events of the session task keep the topics' colours distinct.
pub proof fn law_event_keeps_colors_distinct(a: AppView, e: EventView, now: i64)
    requires
        colors_distinct(a.subscriptions),
    ensures
        colors_distinct(a.after_event(e, now).subscriptions),
{
    let b = a.after_event(e, now).subscriptions;
    assert(b.len() == a.subscriptions.len());
    assert(forall|i: int|
        0 <= i < b.len() ==> #[trigger] b[i].color == a.subscriptions[i].color);
}

/// A `+` filter level stands for exactly one topic level: the levels after it
/// must still match the levels after that topic level.
pub proof fn law_plus_is_one_level(f: Seq<Seq<char>>, t: Seq<Seq<char>>)
    requires
        f.len() > 0,
        f[0] == seq!['+'],
        t.len() > 0,
    ensures
        levels_match(f, t) == levels_match(f.drop_first(), t.drop_first()),
{
    assert(seq!['+'] != seq!['#']) by {
        assert(seq!['+'][0] != seq!['#'][0]);
    }
}

/// A filter without `#` takes in exactly the topics with as many levels, equal to
/// the filter's level by level wherever the filter does not have `+`.
pub proof fn law_filter_without_hash(f: Seq<Seq<char>>, t: Seq<Seq<char>>)
    requires
        forall|k: int| 0 <= k < f.len() ==> #[trigger] f[k] != seq!['#'],
    ensures
        levels_match(f, t) <==> (f.len() == t.len() && forall|k: int|
            0 <= k < f.len() ==> #[trigger] f[k] == seq!['+'] || f[k] == t[k]),
    decreases f.len(),
{
    if f.len() > 0 && t.len() > 0 {
        let f1 = f.drop_first();
        let t1 = t.drop_first();
        assert forall|k: int| 0 <= k < f1.len() implies #[trigger] f1[k] != seq!['#'] by {
            assert(f1[k] == f[k + 1]);
        }
        law_filter_without_hash(f1, t1);
        if f[0] == seq!['+'] || f[0] == t[0] {
            if f.len() == t.len() && forall|k: int|
                0 <= k < f.len() ==> #[trigger] f[k] == seq!['+'] || f[k] == t[k] {
                assert forall|k: int| 0 <= k < f1.len() implies #[trigger] f1[k] == seq!['+']
                    || f1[k] == t1[k] by {
                    assert(f[k + 1] == seq!['+'] || f[k + 1] == t[k + 1]);
                }
            }
            if levels_match(f1, t1) {
                assert forall|k: int| 0 <= k < f.len() implies #[trigger] f[k] == seq!['+']
                    || f[k] == t[k] by {
                    if k > 0 {
                        assert(f1[k - 1] == seq!['+'] || f1[k - 1] == t1[k - 1]);
                    }
                }
            }
        } else {
            assert(!(f[0] == seq!['+'] || f[0] == t[0]));
        }
    }
}

/// A filter ending in `#`, with no other `#`, takes in exactly the topics that
/// have at least the levels before the `#`, equal to them wherever the filter does
/// not have `+` (the `#` stands for any number of further levels, none included).
pub proof fn law_hash_takes_the_rest(p: Seq<Seq<char>>, t: Seq<Seq<char>>)
    requires
        forall|k: int| 0 <= k < p.len() ==> #[trigger] p[k] != seq!['#'],
    ensures
        levels_match(p.push(seq!['#']), t) <==> (t.len() >= p.len() && forall|k: int|
            0 <= k < p.len() ==> #[trigger] p[k] == seq!['+'] || p[k] == t[k]),
    decreases p.len(),
{
    let f = p.push(seq!['#']);
    if p.len() > 0 {
        assert(f[0] == p[0]);
        if t.len() > 0 {
            let p1 = p.drop_first();
            let t1 = t.drop_first();
            assert(f.drop_first() =~= p1.push(seq!['#']));
            assert forall|k: int| 0 <= k < p1.len() implies #[trigger] p1[k] != seq!['#'] by {
                assert(p1[k] == p[k + 1]);
            }
            law_hash_takes_the_rest(p1, t1);
            if p[0] == seq!['+'] || p[0] == t[0] {
                if t.len() >= p.len() && forall|k: int|
                    0 <= k < p.len() ==> #[trigger] p[k] == seq!['+'] || p[k] == t[k] {
                    assert forall|k: int| 0 <= k < p1.len() implies #[trigger] p1[k] == seq!['+']
                        || p1[k] == t1[k] by {
                        assert(p[k + 1] == seq!['+'] || p[k + 1] == t[k + 1]);
                    }
                }
                if levels_match(p1.push(seq!['#']), t1) {
                    assert forall|k: int| 0 <= k < p.len() implies #[trigger] p[k] == seq!['+']
                        || p[k] == t[k] by {
                        if k > 0 {
                            assert(p1[k - 1] == seq!['+'] || p1[k - 1] == t1[k - 1]);
                        }
                    }
                }
            } else {
                assert(!(p[0] == seq!['+'] || p[0] == t[0]));
            }
        }
    }
}

/// The levels of a topic are its pieces between slashes: none holds a `/`, and
/// joining them with `/` gives the topic back.
pub proof fn law_levels_split_at_slashes(t: Seq<char>)
    ensures
        join_with(topic_levels(t), seq!['/']) == t,
        forall|k: int, j: int|
            0 <= k < topic_levels(t).len() && 0 <= j < topic_levels(t)[k].len() ==> #[trigger] topic_levels(t)[k][j]
                != '/',
    decreases t.len(),
{
    if t.len() > 0 {
        let u = t.drop_last();
        law_levels_split_at_slashes(u);
        lemma_topic_levels_nonempty(u);
        let l = topic_levels(u);
        let lt = topic_levels(t);
        let c = t.last();
        if c == '/' {
            assert(lt =~= l.push(Seq::empty()));
            assert(lt.drop_last() =~= l);
            assert(join_with(lt, seq!['/']) =~= u + seq!['/'] + Seq::<char>::empty());
            assert(u + seq!['/'] + Seq::<char>::empty() =~= t);
            assert forall|k: int, j: int|
                0 <= k < lt.len() && 0 <= j < lt[k].len() implies #[trigger] lt[k][j] != '/' by {
                assert(k < l.len());
                assert(lt[k] == l[k]);
            }
        } else {
            let last = l.last().push(c);
            assert(lt == l.update(l.len() - 1, last));
            if l.len() == 1 {
                assert(join_with(l, seq!['/']) == l[0]);
                assert(join_with(lt, seq!['/']) == last);
                assert(last =~= t);
            } else {
                assert(lt.drop_last() =~= l.drop_last());
                assert(join_with(lt, seq!['/']) == join_with(l.drop_last(), seq!['/']) + seq!['/']
                    + last);
                assert(join_with(l, seq!['/']) == join_with(l.drop_last(), seq!['/']) + seq!['/']
                    + l.last());
                assert(join_with(l.drop_last(), seq!['/']) + seq!['/'] + last =~= u.push(c));
                assert(u.push(c) =~= t);
            }
            assert forall|k: int, j: int|
                0 <= k < lt.len() && 0 <= j < lt[k].len() implies #[trigger] lt[k][j] != '/' by {
                if k == l.len() - 1 {
                    if j < l.last().len() {
                        assert(lt[k][j] == l[k][j]);
                    } else {
                        assert(lt[k][j] == c);
                    }
                } else {
                    assert(lt[k] == l[k]);
                }
            }
        }
    } else {
        assert(topic_levels(t) =~= seq![Seq::<char>::empty()]);
    }
}

/// Connecting sends the configuration as it stands: when a command is queued, it
/// is a `Connect` carrying the client's connection settings, field for field, and
/// the settings themselves do not change.
pub proof fn law_connect_sends_configuration(a: AppView)
    ensures
        ({
            let b = a.after_connect();
            &&& b.connection_config == a.connection_config
            &&& b.cmd_queue != a.cmd_queue ==> a.cmd_queue is Some && b.cmd_queue == Some(
                a.cmd_queue->0.push(CmdView::Connect(a.connection_config)),
            )
        }),
{
}

/// Publishing sends what the form says: when a command is queued, it is a
/// `Publish` to the trimmed form topic with the form's QoS and retain flag, and the
/// UTF-8 bytes of the editor lines joined by line breaks.
pub proof fn law_publish_sends_the_form(a: AppView, payload_is_json: bool)
    ensures
        ({
            let b = a.after_publish(payload_is_json);
            b.cmd_queue != a.cmd_queue ==> a.cmd_queue is Some && b.cmd_queue == Some(
                a.cmd_queue->0.push(
                    CmdView::Publish {
                        topic: trimmed(a.publish_form.topic),
                        qos: a.publish_form.qos,
                        retain: a.publish_form.retain,
                        payload: encode_utf8(join_with(a.publish_form.payload_lines, "\n"@)),
                    },
                ),
            )
        }),
{
}

/// In the payload editor, the cursor lies on an existing line and no further
/// than its end.
pub open spec fn payload_cursor_in_line(a: AppView) -> bool {
    &&& a.publish_form.cursor_line < a.publish_form.payload_lines.len()
    &&& a.publish_form.cursor_col <= byte_len(
        a.publish_form.payload_lines[a.publish_form.cursor_line as int],
    )
}

/// The arrow keys, Home and End keep the payload cursor within its line; Right
/// moves it one byte on unless it is at the end of the line, where it stays, and
/// Left moves it one byte back unless it is at the start.
pub proof fn law_payload_cursor_moves(a: AppView)
    requires
        payload_cursor_in_line(a),
        a.publish_form.cursor_col < usize::MAX,
    ensures
        payload_cursor_in_line(a.after_cursor_right()),
        payload_cursor_in_line(a.after_cursor_left()),
        payload_cursor_in_line(a.after_cursor_up()),
        payload_cursor_in_line(a.after_cursor_down()),
        payload_cursor_in_line(a.after_home()),
        payload_cursor_in_line(a.after_end()),
        a.focus == Focus::PublishPayload ==> {
            let col = a.publish_form.cursor_col;
            let len = byte_len(
                a.publish_form.payload_lines[a.publish_form.cursor_line as int],
            );
            &&& a.after_cursor_right().publish_form.cursor_line == a.publish_form.cursor_line
            &&& (col < len ==> a.after_cursor_right().publish_form.cursor_col == col + 1)
            &&& (col == len ==> a.after_cursor_right().publish_form.cursor_col == col)
            &&& (col > 0 ==> a.after_cursor_left().publish_form.cursor_col == col - 1)
            &&& (col == 0 ==> a.after_cursor_left().publish_form.cursor_col == 0)
        },
{
}

/// Subscribing never touches what subscriptions hold: every subscription listed
/// before keeps its topic, colour, messages and scroll position, and only the one
/// whose topic is the trimmed new topic may change its QoS, to the chosen one.
pub proof fn law_subscribe_keeps_messages(a: AppView)
    requires
        topics_unique(a.subscriptions),
    ensures
        ({
            let b = a.after_subscribe().subscriptions;
            let t = trimmed(a.new_sub_topic);
            &&& b.len() >= a.subscriptions.len()
            &&& forall|i: int|
                0 <= i < a.subscriptions.len() ==> {
                    &&& #[trigger] b[i].topic == a.subscriptions[i].topic
                    &&& b[i].color == a.subscriptions[i].color
                    &&& b[i].messages == a.subscriptions[i].messages
                    &&& b[i].scroll_offset == a.subscriptions[i].scroll_offset
                    &&& (a.subscriptions[i].topic != t ==> b[i].qos == a.subscriptions[i].qos)
                    &&& (a.subscriptions[i].topic == t && t.len() > 0 && a.connection_state
                        == ConnectionState::Connected ==> b[i].qos == a.new_sub_qos)
                }
        }),
{
    let t = trimmed(a.new_sub_topic);
    lemma_topic_index_valid(a.subscriptions, t);
    match topic_index(a.subscriptions, t) {
        Some(k) => {
            assert forall|i: int| 0 <= i < a.subscriptions.len() && a.subscriptions[i].topic == t
                implies i == k by {
                if i != k {
                    assert(a.subscriptions[i].topic == a.subscriptions[k].topic);
                }
            }
        },
        None => {},
    }
}

/// Subscribing to a topic not yet listed appends it, with the chosen QoS, no
/// messages and no scrolling, gives it the focus, keeps every earlier subscription,
/// and sends a `Subscribe` for the trimmed topic with that QoS.
pub proof fn law_subscribe_new_topic(a: AppView)
    requires
        a.subscriptions.len() < usize::MAX,
        trimmed(a.new_sub_topic).len() > 0,
        a.connection_state == ConnectionState::Connected,
        forall|i: int|
            0 <= i < a.subscriptions.len() ==> #[trigger] a.subscriptions[i].topic != trimmed(
                a.new_sub_topic,
            ),
    ensures
        ({
            let b = a.after_subscribe();
            let t = trimmed(a.new_sub_topic);
            let n = a.subscriptions.len();
            &&& b.subscriptions.len() == n + 1
            &&& b.subscriptions.take(n as int) == a.subscriptions
            &&& b.subscriptions[n as int].topic == t
            &&& b.subscriptions[n as int].qos == a.new_sub_qos
            &&& b.subscriptions[n as int].messages.len() == 0
            &&& b.subscriptions[n as int].scroll_offset == 0
            &&& b.focused_subscription == n
            &&& (a.cmd_queue is Some ==> b.cmd_queue == Some(
                a.cmd_queue->0.push(CmdView::Subscribe { topic: t, qos: a.new_sub_qos }),
            ))
            &&& (a.cmd_queue is None ==> b.cmd_queue is None)
        }),
{
    let t = trimmed(a.new_sub_topic);
    lemma_topic_index_valid(a.subscriptions, t);
    assert(a.after_subscribe().subscriptions.take(a.subscriptions.len() as int) =~= a.subscriptions);
}

/// Subscribing again to a listed topic sends a `Subscribe` with the new QoS and
/// adds no subscription.
pub proof fn law_subscribe_listed_topic(a: AppView, i: int)
    requires
        trimmed(a.new_sub_topic).len() > 0,
        a.connection_state == ConnectionState::Connected,
        0 <= i < a.subscriptions.len(),
        a.subscriptions[i].topic == trimmed(a.new_sub_topic),
    ensures
        ({
            let b = a.after_subscribe();
            &&& b.subscriptions.len() == a.subscriptions.len()
            &&& (a.cmd_queue is Some ==> b.cmd_queue == Some(
                a.cmd_queue->0.push(
                    CmdView::Subscribe { topic: trimmed(a.new_sub_topic), qos: a.new_sub_qos },
                ),
            ))
        }),
{
    lemma_topic_index_valid(a.subscriptions, trimmed(a.new_sub_topic));
}

/// Unsubscribing removes the focused subscription (the last one when the focus is
/// past the end) and keeps the others in order; while connected it sends an
/// `Unsubscribe` for that topic, otherwise nothing.
pub proof fn law_unsubscribe_removes_focused(a: AppView)
    requires
        a.subscriptions.len() > 0,
    ensures
        ({
            let b = a.after_unsubscribe();
            let n = a.subscriptions.len() as int;
            let idx = if (a.focused_subscription as int) < n - 1 {
                a.focused_subscription as int
            } else {
                n - 1
            };
            &&& b.subscriptions.len() == n - 1
            &&& forall|i: int| 0 <= i < idx ==> #[trigger] b.subscriptions[i] == a.subscriptions[i]
            &&& forall|i: int|
                idx <= i < n - 1 ==> #[trigger] b.subscriptions[i] == a.subscriptions[i + 1]
            &&& (a.connection_state == ConnectionState::Connected && a.cmd_queue is Some
                ==> b.cmd_queue == Some(
                a.cmd_queue->0.push(CmdView::Unsubscribe { topic: a.subscriptions[idx].topic }),
            ))
            &&& (a.connection_state != ConnectionState::Connected ==> b.cmd_queue == a.cmd_queue)
        }),
{
}

/// In a text field, Right moves the cursor one byte on unless it is at the end of
/// the text, where it stays; the text does not change.
pub proof fn law_field_cursor_right(a: AppView, t: TextField)
    requires
        text_field_of(a.focus) == Some(t),
        a.field_cursor(t) <= byte_len(a.field_text(t)),
        a.field_cursor(t) < usize::MAX,
    ensures
        ({
            let b = a.after_cursor_right();
            let c = a.field_cursor(t);
            &&& b.field_text(t) == a.field_text(t)
            &&& b.field_cursor(t) <= byte_len(b.field_text(t))
            &&& (c < byte_len(a.field_text(t)) ==> b.field_cursor(t) == c + 1)
            &&& (c == byte_len(a.field_text(t)) ==> b.field_cursor(t) == c)
        }),
{
}

/// A repeated `Disconnected` report changes nothing more than the first.
pub proof fn law_disconnected_idempotent(a: AppView, now: i64)
    ensures
        a.after_event(EventView::Disconnected, now).after_event(EventView::Disconnected, now)
            == a.after_event(EventView::Disconnected, now),
{
}

/// The twelve topic colours are all different, and the palette repeats after twelve.
pub proof fn law_palette(i: nat, j: nat)
    ensures
        i < 12 && j < 12 && i != j ==> crate::app::state::topic_color(i)
            != crate::app::state::topic_color(j),
        crate::app::state::topic_color(i + 12) == crate::app::state::topic_color(i),
{
}

} // verus!
