use rust_mqtt_client_tui::app::state::{App, Focus};
use rust_mqtt_client_tui::events::handler::{
    handle_action, key_to_action, Action, KeyCodeInput, KeyInput, MOD_CONTROL, MOD_NONE, MOD_SHIFT,
};
use rust_mqtt_client_tui::mqtt::client::{MqttCmd, MqttEvent};

fn key(modifiers: u8, code: KeyCodeInput) -> KeyInput {
    KeyInput { modifiers, code }
}

#[test]
fn control_shortcuts() {
    let app = App::new();
    let cases = [
        ('q', Action::Quit),
        ('c', Action::Connect),
        ('d', Action::Disconnect),
        ('s', Action::Subscribe),
        ('u', Action::Unsubscribe),
        ('p', Action::Publish),
        ('w', Action::ToggleWebSockets),
        ('r', Action::ToggleRetain),
        ('j', Action::ToggleJson),
        ('x', Action::Noop),
    ];
    for (c, a) in cases {
        assert_eq!(key_to_action(key(MOD_CONTROL, KeyCodeInput::Char(c)), &app), Some(a));
    }
}

#[test]
fn navigation_keys() {
    let mut app = App::new();
    assert_eq!(key_to_action(key(MOD_NONE, KeyCodeInput::Tab), &app), Some(Action::NextFocus));
    assert_eq!(key_to_action(key(MOD_SHIFT, KeyCodeInput::BackTab), &app), Some(Action::PrevFocus));
    assert_eq!(key_to_action(key(MOD_NONE, KeyCodeInput::BackTab), &app), Some(Action::Noop));
    assert_eq!(key_to_action(key(MOD_NONE, KeyCodeInput::Up), &app), Some(Action::TopicUp));
    assert_eq!(key_to_action(key(MOD_NONE, KeyCodeInput::Down), &app), Some(Action::TopicDown));
    app.focus = Focus::PublishPayload;
    assert_eq!(key_to_action(key(MOD_NONE, KeyCodeInput::Up), &app), Some(Action::CursorUp));
    assert_eq!(key_to_action(key(MOD_NONE, KeyCodeInput::Down), &app), Some(Action::CursorDown));
    assert_eq!(key_to_action(key(MOD_NONE, KeyCodeInput::Left), &app), Some(Action::CursorLeft));
    assert_eq!(key_to_action(key(MOD_NONE, KeyCodeInput::Right), &app), Some(Action::CursorRight));
    assert_eq!(key_to_action(key(MOD_NONE, KeyCodeInput::Backspace), &app), Some(Action::Backspace));
    assert_eq!(key_to_action(key(MOD_NONE, KeyCodeInput::Delete), &app), Some(Action::Delete));
    assert_eq!(key_to_action(key(MOD_NONE, KeyCodeInput::Enter), &app), Some(Action::Newline));
    assert_eq!(key_to_action(key(MOD_NONE, KeyCodeInput::Home), &app), Some(Action::Home));
    assert_eq!(key_to_action(key(MOD_NONE, KeyCodeInput::End), &app), Some(Action::End));
    assert_eq!(key_to_action(key(MOD_NONE, KeyCodeInput::PageUp), &app), Some(Action::ScrollUp));
    assert_eq!(key_to_action(key(MOD_NONE, KeyCodeInput::PageDown), &app), Some(Action::ScrollDown));
    assert_eq!(key_to_action(key(MOD_NONE, KeyCodeInput::Other), &app), Some(Action::Noop));
    assert_eq!(key_to_action(key(4, KeyCodeInput::Tab), &app), Some(Action::Noop));
}

#[test]
fn characters_and_space() {
    let mut app = App::new();
    assert_eq!(key_to_action(key(MOD_NONE, KeyCodeInput::Char('a')), &app), Some(Action::Char('a')));
    assert_eq!(key_to_action(key(MOD_SHIFT, KeyCodeInput::Char('a')), &app), Some(Action::Char('A')));
    assert_eq!(key_to_action(key(MOD_SHIFT, KeyCodeInput::Char('A')), &app), Some(Action::Char('A')));
    assert_eq!(key_to_action(key(MOD_SHIFT, KeyCodeInput::Char('!')), &app), Some(Action::Char('!')));
    assert_eq!(key_to_action(key(MOD_NONE, KeyCodeInput::Char(' ')), &app), Some(Action::Char(' ')));
    app.focus = Focus::SubscribeQos;
    assert_eq!(key_to_action(key(MOD_NONE, KeyCodeInput::Char(' ')), &app), Some(Action::CycleValue));
    app.focus = Focus::PublishQos;
    assert_eq!(key_to_action(key(MOD_NONE, KeyCodeInput::Char(' ')), &app), Some(Action::CycleValue));
    assert_eq!(key_to_action(key(4, KeyCodeInput::Char('a')), &app), Some(Action::Noop));
}

#[test]
fn quit_requests_disconnect() {
    let mut app = App::new();
    handle_action(&mut app, Action::Quit);
    assert!(app.should_quit);
    assert!(matches!(app.take_commands().as_slice(), [MqttCmd::Disconnect]));
}

#[test]
fn toggle_websockets_swaps_default_ports() {
    let mut app = App::new();
    handle_action(&mut app, Action::ToggleWebSockets);
    assert!(app.connection_config.use_websockets);
    assert_eq!(app.connection_config.port, 8083);
    assert_eq!(app.status_message, "Transport: WebSocket");
    handle_action(&mut app, Action::ToggleWebSockets);
    assert!(!app.connection_config.use_websockets);
    assert_eq!(app.connection_config.port, 1883);
    assert_eq!(app.status_message, "Transport: TCP");
    app.connection_config.port = 9001;
    handle_action(&mut app, Action::ToggleWebSockets);
    assert_eq!(app.connection_config.port, 9001);
}

#[test]
fn toggles_and_cycle_value() {
    let mut app = App::new();
    handle_action(&mut app, Action::ToggleRetain);
    assert!(app.publish_form.retain);
    handle_action(&mut app, Action::ToggleJson);
    assert!(app.publish_form.is_json);
    handle_action(&mut app, Action::CycleValue);
    assert_eq!(app.new_sub_qos, 0);
    app.focus = Focus::SubscribeQos;
    handle_action(&mut app, Action::CycleValue);
    assert_eq!(app.new_sub_qos, 1);
    app.focus = Focus::PublishQos;
    handle_action(&mut app, Action::CycleValue);
    assert_eq!(app.publish_form.qos, 1);
}

#[test]
fn topic_navigation_and_scroll() {
    let mut app = App::new();
    handle_action(&mut app, Action::ScrollUp);
    handle_action(&mut app, Action::TopicDown);
    assert_eq!(app.focused_subscription, 0);
    app.handle_mqtt_event(MqttEvent::Connected);
    for t in ["a", "b"] {
        app.new_sub_topic = String::from(t);
        handle_action(&mut app, Action::Subscribe);
    }
    assert_eq!(app.focused_subscription, 1);
    handle_action(&mut app, Action::TopicDown);
    assert_eq!(app.focused_subscription, 1);
    handle_action(&mut app, Action::TopicUp);
    assert_eq!(app.focused_subscription, 0);
    handle_action(&mut app, Action::TopicUp);
    assert_eq!(app.focused_subscription, 0);
    handle_action(&mut app, Action::ScrollUp);
    handle_action(&mut app, Action::ScrollUp);
    assert_eq!(app.subscriptions[0].scroll_offset, 2);
    handle_action(&mut app, Action::ScrollDown);
    handle_action(&mut app, Action::ScrollDown);
    handle_action(&mut app, Action::ScrollDown);
    assert_eq!(app.subscriptions[0].scroll_offset, 0);
    app.subscriptions[0].scroll_offset = usize::MAX;
    handle_action(&mut app, Action::ScrollUp);
    assert_eq!(app.subscriptions[0].scroll_offset, usize::MAX);
}

#[test]
fn editing_actions_dispatch() {
    let mut app = App::new();
    for c in "abc".chars() {
        handle_action(&mut app, Action::Char(c));
    }
    handle_action(&mut app, Action::CursorLeft);
    handle_action(&mut app, Action::Backspace);
    assert_eq!(app.connection_config.host, "ac");
    handle_action(&mut app, Action::Home);
    handle_action(&mut app, Action::Delete);
    assert_eq!(app.connection_config.host, "c");
    handle_action(&mut app, Action::End);
    assert_eq!(app.host_cursor, 1);
    handle_action(&mut app, Action::CursorRight);
    assert_eq!(app.host_cursor, 1);
    handle_action(&mut app, Action::NextFocus);
    assert_eq!(app.focus, Focus::Port);
    handle_action(&mut app, Action::PrevFocus);
    assert_eq!(app.focus, Focus::Host);
    handle_action(&mut app, Action::Noop);
    handle_action(&mut app, Action::Newline);
    handle_action(&mut app, Action::CursorUp);
    handle_action(&mut app, Action::CursorDown);
    assert_eq!(app.connection_config.host, "c");
}

#[test]
fn connect_and_publish_actions() {
    let mut app = App::new();
    app.connection_config.host = String::from("h");
    handle_action(&mut app, Action::Connect);
    handle_action(&mut app, Action::Disconnect);
    let cmds = app.take_commands();
    assert_eq!(cmds.len(), 2);
    app.handle_mqtt_event(MqttEvent::Connected);
    app.publish_form.topic = String::from("t");
    handle_action(&mut app, Action::Publish);
    assert_eq!(app.status_message, "Published to 't' (QoS 0)");
    app.new_sub_topic = String::from("t");
    handle_action(&mut app, Action::Subscribe);
    handle_action(&mut app, Action::Unsubscribe);
    assert!(app.subscriptions.is_empty());
}
