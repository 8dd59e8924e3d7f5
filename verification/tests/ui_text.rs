use rust_mqtt_client_tui::app::state::{App, ConnectionState, Focus};
use rust_mqtt_client_tui::mqtt::client::MqttEvent;
use rust_mqtt_client_tui::ui::connection::{
    build_cursor_text, connection_status_text, password_display, transport_text,
};
use rust_mqtt_client_tui::ui::help::help_text;
use rust_mqtt_client_tui::ui::publish::{
    format_text, qos_label, retain_text, split_line_at_cursor, topic_cursor_text,
};
use rust_mqtt_client_tui::ui::subscriptions::{
    cursor_char, message_line, messages_placeholder, sub_qos_text, topic_list_entry,
    visible_messages,
};
use rust_mqtt_client_tui::ui::top_bar::top_bar_items;

#[test]
fn cursor_text() {
    assert_eq!(build_cursor_text("", 0, true), "▌");
    assert_eq!(build_cursor_text("", 3, false), " ");
    assert_eq!(build_cursor_text("abc", 1, true), "a▌bc");
    assert_eq!(build_cursor_text("abc", 9, true), "abc▌");
    assert_eq!(build_cursor_text("abc", 0, false), " abc");
    assert_eq!(build_cursor_text("éa", 2, true), "é▌a");
}

#[test]
fn password_masking() {
    assert_eq!(password_display("", 0, true, true), "▌");
    assert_eq!(password_display("", 0, false, true), " ");
    assert_eq!(password_display("abc", 1, true, true), "•▌•");
    assert_eq!(password_display("abc", 1, false, true), "•••");
    assert_eq!(password_display("ab", 2, true, true), "••▌");
    assert_eq!(password_display("ab", 2, true, false), "••");
}

#[test]
fn transport_and_status() {
    assert_eq!(transport_text(true), "WS ");
    assert_eq!(transport_text(false), "TCP");
    let mut app = App::new();
    assert_eq!(connection_status_text(&app), "TCP:1883");
    app.connection_config.use_websockets = true;
    app.connection_config.port = 8083;
    assert_eq!(connection_status_text(&app), "WS:8083");
    app.connection_state = ConnectionState::Connecting;
    assert_eq!(connection_status_text(&app), "Connecting...");
    app.connection_state = ConnectionState::Connected;
    app.connection_config.host = String::from("h");
    assert_eq!(connection_status_text(&app), "Connected to h:8083");
}

#[test]
fn help_lines() {
    assert_eq!(help_text(Focus::Host), "Host: broker address | Tab: next field | ^C: Connect");
    assert_eq!(help_text(Focus::PublishQos), "Publish QoS: 0, 1, or 2 | Space: cycle | ^P: Publish");
    assert_eq!(
        help_text(Focus::PublishPayload),
        "Payload: Enter for newline | ^J: JSON/Text | ^R: Retain | ^P: Publish"
    );
}

#[test]
fn publish_panel_texts() {
    assert_eq!(topic_cursor_text(true, 0), "▌");
    assert_eq!(topic_cursor_text(false, 0), "");
    assert_eq!(topic_cursor_text(false, 3), " ");
    assert_eq!(qos_label(0), "0 - At most once");
    assert_eq!(qos_label(1), "1 - At least once");
    assert_eq!(qos_label(2), "2 - Exactly once");
    assert_eq!(retain_text(true), "Retain: ON  (^R)");
    assert_eq!(retain_text(false), "Retain: OFF (^R)");
    assert_eq!(format_text(true), "Format: JSON (^J)");
    assert_eq!(format_text(false), "Format: Text (^J)");
    assert_eq!(split_line_at_cursor("hello", 2), ("he", "llo"));
    assert_eq!(split_line_at_cursor("hello", 99), ("hello", ""));
}

#[test]
fn subscription_panel_texts() {
    assert_eq!(cursor_char(true, 0, "ab"), "|");
    assert_eq!(cursor_char(true, 2, "ab"), "▌");
    assert_eq!(cursor_char(false, 0, "ab"), "");
    assert_eq!(sub_qos_text(2), "2 [Spc] ");
    assert_eq!(topic_list_entry(true, "a/b", 1, 42), "▸  a/b (QoS:1) [42]");
    assert_eq!(topic_list_entry(false, "x", 0, 0), "   x (QoS:0) [0]");
    assert_eq!(visible_messages(5, 1, 2), vec![3, 2]);
    assert_eq!(visible_messages(5, 0, 10), vec![4, 3, 2, 1, 0]);
    assert_eq!(visible_messages(5, 7, 3), Vec::<usize>::new());
    assert_eq!(visible_messages(0, 0, 3), Vec::<usize>::new());
}

#[test]
fn placeholders() {
    let mut app = App::new();
    assert_eq!(
        messages_placeholder(&app),
        Some("No subscriptions. Use ^S to subscribe to a topic.")
    );
    app.handle_mqtt_event(MqttEvent::Connected);
    app.new_sub_topic = String::from("t");
    app.subscribe();
    assert_eq!(messages_placeholder(&app), None);
    app.focused_subscription = 3;
    assert_eq!(messages_placeholder(&app), Some("No subscription selected"));
}

#[test]
fn top_bar_highlights() {
    let mut app = App::new();
    app.focus = Focus::SubscribeQos;
    let items = top_bar_items(&app);
    let labels: Vec<&str> = items.iter().map(|i| i.label).collect();
    assert_eq!(
        labels,
        vec![
            "^C:Connect",
            "^D:Disconnect",
            "^S:Subscribe",
            "^U:Unsubscribe",
            "^P:Publish",
            "^W:WS/TCP",
            "Spc:Cycle",
            "^Q:Quit"
        ]
    );
    let active: Vec<bool> = items.iter().map(|i| i.active).collect();
    assert_eq!(active, vec![false, false, true, false, false, false, true, false]);
    app.focus = Focus::PublishPayload;
    app.connection_state = ConnectionState::Connected;
    let active: Vec<bool> = top_bar_items(&app).iter().map(|i| i.active).collect();
    assert_eq!(active, vec![true, false, false, false, true, false, false, false]);
}

#[test]
fn message_line_marks_retained_messages_and_cuts_the_payload() {
    let payload = b"hello world".to_vec();
    assert_eq!(message_line(true, &payload, 80), ("[R] ", String::from("hello world")));
    assert_eq!(message_line(false, &payload, 80), ("", String::from("hello world")));
    assert_eq!(message_line(false, &payload, 25), ("", String::from("hello")));
    assert_eq!(message_line(true, &payload, 10), ("[R] ", String::new()));
    let accented = "héllo".as_bytes().to_vec();
    assert_eq!(message_line(false, &accented, 22).1, "hé");
}

#[test]
fn message_line_replaces_invalid_utf8() {
    let payload = vec![b'a', 0xff, b'b'];
    assert_eq!(message_line(false, &payload, 80).1, "a\u{fffd}b");
}
