use rust_mqtt_client_tui::app::client_id::client_id_from_uuid;
use rust_mqtt_client_tui::app::state::{
    color_for_index, App, ConnectionState, Focus, TopicColor, MAX_MESSAGES_PER_TOPIC,
};
use rust_mqtt_client_tui::mqtt::client::{MqttCmd, MqttEvent};

fn type_text(app: &mut App, text: &str) {
    for c in text.chars() {
        app.insert_char(c);
    }
}

fn connected_app() -> App {
    let mut app = App::new();
    app.handle_mqtt_event(MqttEvent::Connected);
    app
}

#[test]
fn new_app_defaults() {
    let app = App::new();
    assert_eq!(app.connection_config.host, "");
    assert_eq!(app.connection_config.port, 1883);
    assert!(!app.connection_config.use_websockets);
    assert!(app.connection_config.clean_session);
    assert_eq!(app.connection_config.keep_alive, 60);
    assert!(app.connection_config.client_id.starts_with("mqtt_tui_"));
    assert_eq!(app.connection_config.client_id.len(), 17);
    assert!(app.connection_config.client_id[9..]
        .chars()
        .all(|c| c.is_ascii_hexdigit() && !c.is_ascii_uppercase()));
    assert_eq!(app.client_id_cursor, 16);
    assert_eq!(app.connection_state, ConnectionState::Disconnected);
    assert_eq!(app.focus, Focus::Host);
    assert_eq!(app.status_message, "Disconnected | ^C: Connect  ^Q: Quit");
    assert_eq!(app.publish_form.payload_lines, vec![String::new()]);
    assert!(app.cursor_visible);
    assert!(!app.should_quit);
    assert_eq!(app.cmd_queue.as_ref().map(|q| q.len()), Some(0));
}

#[test]
fn client_id_uses_first_uuid_group() {
    assert_eq!(
        client_id_from_uuid("67e55044-10b1-426f-9247-bb680e5fe0c8"),
        "mqtt_tui_67e55044"
    );
    assert_eq!(client_id_from_uuid("abc"), "mqtt_tui_abc");
    assert_eq!(client_id_from_uuid(""), "mqtt_tui_");
}

#[test]
fn topic_colors_cycle_through_twelve() {
    assert_eq!(color_for_index(0), TopicColor::Red);
    assert_eq!(color_for_index(1), TopicColor::Green);
    assert_eq!(color_for_index(11), TopicColor::LightCyan);
    assert_eq!(color_for_index(12), TopicColor::Red);
    assert_eq!(color_for_index(13), TopicColor::Green);
}

#[test]
fn typing_and_editing_host() {
    let mut app = App::new();
    type_text(&mut app, "localhost");
    assert_eq!(app.connection_config.host, "localhost");
    assert_eq!(app.host_cursor, 9);
    app.backspace();
    assert_eq!(app.connection_config.host, "localhos");
    assert_eq!(app.host_cursor, 8);
    app.move_to_home();
    assert_eq!(app.host_cursor, 0);
    app.delete();
    assert_eq!(app.connection_config.host, "ocalhos");
    app.backspace();
    assert_eq!(app.connection_config.host, "ocalhos");
    app.move_cursor_right();
    app.move_cursor_right();
    assert_eq!(app.host_cursor, 2);
    app.insert_char('X');
    assert_eq!(app.connection_config.host, "ocXalhos");
    assert_eq!(app.host_cursor, 3);
    app.move_cursor_left();
    assert_eq!(app.host_cursor, 2);
    app.move_to_end();
    assert_eq!(app.host_cursor, 8);
    app.move_cursor_right();
    assert_eq!(app.host_cursor, 8);
    app.delete();
    assert_eq!(app.connection_config.host, "ocXalhos");
}

#[test]
fn multibyte_characters_use_byte_offsets() {
    let mut app = App::new();
    app.insert_char('a');
    app.insert_char('b');
    app.move_to_home();
    app.insert_char('é');
    assert_eq!(app.connection_config.host, "éab");
    // The cursor moves one byte, as the original does.
    assert_eq!(app.host_cursor, 1);
    app.move_to_end();
    assert_eq!(app.host_cursor, 4);
}

#[test]
fn port_field_accepts_digits_only() {
    let mut app = App::new();
    app.next_focus();
    assert_eq!(app.focus, Focus::Port);
    app.move_to_end();
    assert_eq!(app.port_cursor, 4);
    app.insert_char('x');
    assert_eq!(app.connection_config.port, 1883);
    app.insert_char('0');
    assert_eq!(app.connection_config.port, 18830);
    assert_eq!(app.port_cursor, 5);
    app.insert_char('9');
    // 188309 does not fit in a u16: the port stays, the cursor still moves.
    assert_eq!(app.connection_config.port, 18830);
    assert_eq!(app.port_cursor, 6);
    // The cursor is past the end of "18830": Backspace does nothing.
    app.backspace();
    assert_eq!(app.connection_config.port, 18830);
    assert_eq!(app.port_cursor, 6);
    app.move_to_end();
    assert_eq!(app.port_cursor, 5);
    app.backspace();
    assert_eq!(app.connection_config.port, 1883);
    assert_eq!(app.port_cursor, 4);
    app.move_to_home();
    app.delete();
    assert_eq!(app.connection_config.port, 883);
    app.delete();
    app.delete();
    app.delete();
    // An empty port text parses to nothing: the port becomes 0.
    assert_eq!(app.connection_config.port, 0);
    app.insert_char('0');
    assert_eq!(app.connection_config.port, 0);
    app.move_cursor_right();
    assert_eq!(app.port_cursor, 1);
}

#[test]
fn port_with_leading_zero_is_parsed() {
    let mut app = App::new();
    app.focus = Focus::Port;
    app.port_cursor = 0;
    app.insert_char('0');
    assert_eq!(app.connection_config.port, 1883);
    assert_eq!(app.port_cursor, 1);
}

#[test]
fn focus_order_cycles() {
    let mut app = App::new();
    let order = [
        Focus::Port,
        Focus::ClientId,
        Focus::Username,
        Focus::Password,
        Focus::SubscribeTopic,
        Focus::SubscribeQos,
        Focus::PublishTopic,
        Focus::PublishQos,
        Focus::PublishPayload,
        Focus::Host,
    ];
    for f in order {
        app.next_focus();
        assert_eq!(app.focus, f);
    }
    app.prev_focus();
    assert_eq!(app.focus, Focus::PublishPayload);
    app.next_focus();
    assert_eq!(app.focus, Focus::Host);
}

#[test]
fn qos_cycles() {
    let mut app = App::new();
    app.cycle_qos_sub();
    assert_eq!(app.new_sub_qos, 1);
    app.cycle_qos_sub();
    app.cycle_qos_sub();
    assert_eq!(app.new_sub_qos, 0);
    app.cycle_qos_publish();
    assert_eq!(app.publish_form.qos, 1);
    app.cycle_qos_publish();
    assert_eq!(app.publish_form.qos, 2);
    app.cycle_qos_publish();
    assert_eq!(app.publish_form.qos, 0);
    assert_eq!(app.publish_qos_idx, 0);
}

#[test]
fn tick_blinks_every_thirty() {
    let mut app = App::new();
    for _ in 0..29 {
        app.tick();
    }
    assert!(app.cursor_visible);
    app.tick();
    assert!(!app.cursor_visible);
    assert_eq!(app.blink_tick, 30);
    app.blink_tick = u64::MAX;
    app.tick();
    assert_eq!(app.blink_tick, 0);
    assert!(app.cursor_visible);
}

#[test]
fn connect_needs_a_host() {
    let mut app = App::new();
    app.connect();
    assert_eq!(app.status_message, "Host is required");
    assert_eq!(app.connection_state, ConnectionState::Disconnected);
    type_text(&mut app, "   ");
    app.connect();
    assert_eq!(app.status_message, "Host is required");
    assert!(app.take_commands().is_empty());
}

#[test]
fn connect_queues_the_configuration() {
    let mut app = App::new();
    type_text(&mut app, " broker.emqx.io ");
    app.connect();
    assert_eq!(app.connection_state, ConnectionState::Connecting);
    assert_eq!(app.status_message, "Connecting to broker.emqx.io:1883...");
    let cmds = app.take_commands();
    assert_eq!(cmds.len(), 1);
    match &cmds[0] {
        MqttCmd::Connect(c) => {
            assert_eq!(c.host, " broker.emqx.io ");
            assert_eq!(c.port, 1883);
        }
        other => panic!("unexpected {:?}", other),
    }
    assert!(app.take_commands().is_empty());
}

#[test]
fn connect_when_connected() {
    let mut app = connected_app();
    app.connection_config.host = String::from("h");
    app.connect();
    assert_eq!(app.status_message, "Already connected");
    assert!(app.take_commands().is_empty());
}

#[test]
fn connect_after_channel_closed_does_nothing() {
    let mut app = App::new();
    app.connection_config.host = String::from("h");
    assert!(app.close_command_channel().is_empty());
    app.connect();
    assert_eq!(app.connection_state, ConnectionState::Disconnected);
    assert_eq!(app.status_message, "Disconnected | ^C: Connect  ^Q: Quit");
    assert!(app.cmd_queue.is_none());
}

#[test]
fn disconnect_queues_disconnect() {
    let mut app = App::new();
    app.disconnect();
    let cmds = app.take_commands();
    assert!(matches!(cmds.as_slice(), [MqttCmd::Disconnect]));
}

#[test]
fn subscribe_needs_topic_and_connection() {
    let mut app = App::new();
    app.subscribe();
    assert_eq!(app.status_message, "Topic is required for subscription");
    app.new_sub_topic = String::from("a/b");
    app.subscribe();
    assert_eq!(app.status_message, "Not connected to a broker");
    assert!(app.subscriptions.is_empty());
    assert!(app.take_commands().is_empty());
}

#[test]
fn subscribe_adds_and_updates() {
    let mut app = connected_app();
    app.new_sub_topic = String::from(" sensors/# ");
    app.new_sub_qos = 1;
    app.subscribe();
    assert_eq!(app.status_message, "Subscribed to 'sensors/#' (QoS 1)");
    assert_eq!(app.subscriptions.len(), 1);
    assert_eq!(app.subscriptions[0].topic, "sensors/#");
    assert_eq!(app.subscriptions[0].color, TopicColor::Red);
    assert_eq!(app.focused_subscription, 0);
    app.new_sub_topic = String::from("b");
    app.new_sub_qos = 0;
    app.subscribe();
    assert_eq!(app.subscriptions[1].color, TopicColor::Green);
    assert_eq!(app.focused_subscription, 1);
    app.new_sub_topic = String::from("sensors/#");
    app.new_sub_qos = 2;
    app.subscribe();
    assert_eq!(app.status_message, "Updated subscription 'sensors/#' (QoS 2)");
    assert_eq!(app.subscriptions.len(), 2);
    assert_eq!(app.subscriptions[0].qos, 2);
    assert_eq!(app.focused_subscription, 1);
    let cmds = app.take_commands();
    assert_eq!(cmds.len(), 3);
    match &cmds[2] {
        MqttCmd::Subscribe { topic, qos } => {
            assert_eq!(topic, "sensors/#");
            assert_eq!(*qos, 2);
        }
        other => panic!("unexpected {:?}", other),
    }
}

#[test]
fn unsubscribe_removes_focused_topic() {
    let mut app = connected_app();
    for t in ["a", "b", "c"] {
        app.new_sub_topic = String::from(t);
        app.subscribe();
    }
    app.take_commands();
    app.focused_subscription = 1;
    app.unsubscribe();
    assert_eq!(app.status_message, "Unsubscribed from 'b'");
    let topics: Vec<&str> = app.subscriptions.iter().map(|s| s.topic.as_str()).collect();
    assert_eq!(topics, vec!["a", "c"]);
    assert_eq!(app.focused_subscription, 1);
    app.unsubscribe();
    assert_eq!(app.focused_subscription, 0);
    app.focused_subscription = 7;
    app.unsubscribe();
    assert!(app.subscriptions.is_empty());
    assert_eq!(app.focused_subscription, 0);
    let cmds = app.take_commands();
    assert_eq!(cmds.len(), 3);
    assert!(matches!(&cmds[0], MqttCmd::Unsubscribe { topic } if topic == "b"));
    app.unsubscribe();
    assert!(app.take_commands().is_empty());
}

#[test]
fn unsubscribe_while_disconnected_sends_nothing() {
    let mut app = connected_app();
    app.new_sub_topic = String::from("a");
    app.subscribe();
    app.take_commands();
    app.handle_mqtt_event(MqttEvent::Disconnected);
    app.unsubscribe();
    assert!(app.subscriptions.is_empty());
    assert!(app.take_commands().is_empty());
}

#[test]
fn publish_checks_topic_json_and_connection() {
    let mut app = App::new();
    app.publish();
    assert_eq!(app.status_message, "Topic is required for publishing");
    app.publish_form.topic = String::from("t");
    app.publish_form.is_json = true;
    app.publish_form.payload_lines = vec![String::from("{\"a\":")];
    app.publish();
    assert_eq!(app.status_message, "Invalid JSON payload");
    app.publish_form.payload_lines = vec![String::from("{\"a\":"), String::from("1}")];
    app.publish();
    assert_eq!(app.status_message, "Not connected to a broker");
    app.publish_form.payload_lines = vec![String::from("  ")];
    app.publish();
    assert_eq!(app.status_message, "Invalid JSON payload");
    assert!(app.take_commands().is_empty());
}

#[test]
fn blank_json_payload_is_not_published() {
    let mut app = connected_app();
    app.publish_form.topic = String::from("t");
    app.publish_form.is_json = true;
    app.publish();
    assert_eq!(app.status_message, "Invalid JSON payload");
    assert!(app.take_commands().is_empty());
    app.publish_form.payload_lines = vec![String::from(" \t"), String::new()];
    app.publish();
    assert_eq!(app.status_message, "Invalid JSON payload");
    assert!(app.take_commands().is_empty());
    app.publish_form.is_json = false;
    app.publish();
    assert_eq!(app.status_message, "Published to 't' (QoS 0)");
    assert_eq!(app.take_commands().len(), 1);
}

#[test]
fn json_payload_that_parses_is_published() {
    let mut app = connected_app();
    app.publish_form.topic = String::from("t");
    app.publish_form.is_json = true;
    app.publish_form.payload_lines = vec![String::from("{\"a\":"), String::from(" [1, 2]}")];
    app.publish();
    assert_eq!(app.status_message, "Published to 't' (QoS 0)");
    assert_eq!(app.take_commands().len(), 1);
}

#[test]
fn publish_queues_joined_payload() {
    let mut app = connected_app();
    app.publish_form.topic = String::from(" out ");
    app.publish_form.qos = 1;
    app.publish_form.retain = true;
    app.publish_form.payload_lines = vec![String::from("line1"), String::from("line2")];
    app.publish();
    assert_eq!(app.status_message, "Published to 'out' (QoS 1)");
    let cmds = app.take_commands();
    match &cmds[..] {
        [MqttCmd::Publish { topic, qos, retain, payload }] => {
            assert_eq!(topic, "out");
            assert_eq!(*qos, 1);
            assert!(*retain);
            assert_eq!(payload.as_slice(), b"line1\nline2");
        }
        other => panic!("unexpected {:?}", other),
    }
}

#[test]
fn publish_with_verdict_follows_the_verdict() {
    let mut app = connected_app();
    app.publish_form.topic = String::from("t");
    app.publish_form.is_json = true;
    app.publish_form.payload_lines = vec![String::from("anything")];
    app.publish_with_verdict(false);
    assert_eq!(app.status_message, "Invalid JSON payload");
    app.publish_with_verdict(true);
    assert_eq!(app.status_message, "Published to 't' (QoS 0)");
}

#[test]
fn mqtt_events_update_state() {
    let mut app = App::new();
    app.handle_mqtt_event(MqttEvent::Connected);
    assert_eq!(app.connection_state, ConnectionState::Connected);
    assert_eq!(app.status_message, "Connected");
    app.handle_mqtt_event(MqttEvent::Error(String::from("boom")));
    assert_eq!(app.connection_state, ConnectionState::Disconnected);
    assert_eq!(app.status_message, "Error: boom");
    app.handle_mqtt_event(MqttEvent::Connected);
    app.handle_mqtt_event(MqttEvent::Disconnected);
    assert_eq!(app.connection_state, ConnectionState::Disconnected);
    assert_eq!(app.status_message, "Disconnected");
}

#[test]
fn messages_go_to_their_topic_and_are_capped() {
    let mut app = connected_app();
    for t in ["a", "b"] {
        app.new_sub_topic = String::from(t);
        app.subscribe();
    }
    app.handle_mqtt_event(MqttEvent::MessageReceived {
        topic: String::from("zzz"),
        payload: b"x".to_vec(),
        retain: false,
    });
    assert!(app.subscriptions.iter().all(|s| s.messages.is_empty()));
    for i in 0..(MAX_MESSAGES_PER_TOPIC + 1) {
        app.handle_mqtt_event(MqttEvent::MessageReceived {
            topic: String::from("b"),
            payload: i.to_string().into_bytes(),
            retain: i == 0,
        });
    }
    assert!(app.subscriptions[0].messages.is_empty());
    let msgs = &app.subscriptions[1].messages;
    assert_eq!(msgs.len(), MAX_MESSAGES_PER_TOPIC);
    assert_eq!(msgs.front().unwrap().payload, b"1".to_vec());
    assert_eq!(msgs.back().unwrap().payload, b"500".to_vec());
    assert!(!msgs.front().unwrap().retain);
}

#[test]
fn payload_editor_lines() {
    let mut app = App::new();
    app.focus = Focus::PublishPayload;
    type_text(&mut app, "hello");
    app.move_cursor_left();
    app.move_cursor_left();
    app.insert_newline();
    assert_eq!(app.publish_form.payload_lines, vec!["hel".to_string(), "lo".to_string()]);
    assert_eq!(app.publish_form.cursor_line, 1);
    assert_eq!(app.publish_form.cursor_col, 0);
    app.move_to_end();
    assert_eq!(app.publish_form.cursor_col, 2);
    app.move_cursor_up();
    assert_eq!(app.publish_form.cursor_line, 0);
    assert_eq!(app.publish_form.cursor_col, 2);
    app.move_to_end();
    app.move_cursor_down();
    assert_eq!(app.publish_form.cursor_line, 1);
    assert_eq!(app.publish_form.cursor_col, 2);
    app.move_cursor_down();
    assert_eq!(app.publish_form.cursor_line, 1);
    app.backspace();
    assert_eq!(app.publish_form.payload_lines[1], "l");
    app.move_to_home();
    app.delete();
    assert_eq!(app.publish_form.payload_lines[1], "");
    app.insert_char(' ');
    assert_eq!(app.publish_form.payload_lines[1], " ");
}

#[test]
fn newline_outside_payload_does_nothing() {
    let mut app = App::new();
    app.insert_newline();
    assert_eq!(app.publish_form.payload_lines.len(), 1);
    app.move_cursor_up();
    app.move_cursor_down();
    assert_eq!(app.publish_form.cursor_line, 0);
}

#[test]
fn qos_fields_ignore_text_keys() {
    let mut app = App::new();
    app.focus = Focus::SubscribeQos;
    app.insert_char('x');
    app.backspace();
    app.delete();
    app.move_to_end();
    assert_eq!(app.new_sub_topic, "");
    assert_eq!(app.new_sub_qos, 0);
}

#[test]
fn editing_other_text_fields() {
    let mut app = App::new();
    app.focus = Focus::Username;
    type_text(&mut app, "user");
    app.focus = Focus::Password;
    type_text(&mut app, "pw");
    app.focus = Focus::SubscribeTopic;
    type_text(&mut app, "s/t");
    app.focus = Focus::PublishTopic;
    type_text(&mut app, "p/t");
    app.focus = Focus::ClientId;
    app.move_to_end();
    app.backspace();
    assert_eq!(app.connection_config.username, "user");
    assert_eq!(app.connection_config.password, "pw");
    assert_eq!(app.new_sub_topic, "s/t");
    assert_eq!(app.publish_form.topic, "p/t");
    assert_eq!(app.connection_config.client_id.len(), 16);
    assert_eq!(app.username_cursor, 4);
    assert_eq!(app.publish_topic_cursor, 3);
}

#[test]
fn close_channel_hands_over_pending() {
    let mut app = App::new();
    app.disconnect();
    let cmds = app.close_command_channel();
    assert_eq!(cmds.len(), 1);
    app.disconnect();
    assert!(app.take_commands().is_empty());
}

#[test]
fn unicode_whitespace_is_trimmed_from_topics() {
    let mut app = connected_app();
    app.new_sub_topic = String::from("\u{3000}\tsensors/temp \u{2028}");
    app.subscribe();
    assert_eq!(app.subscriptions[0].topic, "sensors/temp");
    app.new_sub_topic = String::from("\u{a0}\u{2003}");
    app.subscribe();
    assert_eq!(app.status_message, "Topic is required for subscription");
}

#[test]
fn client_with_given_identifier() {
    let app = App::with_client_id(String::from("abc"));
    assert_eq!(app.connection_config.client_id, "abc");
    assert_eq!(app.client_id_cursor, 2);
    let app = App::with_client_id(String::new());
    assert_eq!(app.client_id_cursor, 0);
}

#[test]
fn received_message_keeps_its_arrival_time() {
    let mut app = connected_app();
    app.new_sub_topic = String::from("t");
    app.subscribe();
    app.handle_mqtt_event_at(
        MqttEvent::MessageReceived { topic: String::from("t"), payload: vec![9], retain: true },
        1_700_000_000_123,
    );
    let m = app.subscriptions[0].messages.back().unwrap();
    assert_eq!(m.timestamp, 1_700_000_000_123);
    assert!(m.retain);
    assert_eq!(m.payload, vec![9]);
}

#[test]
fn wildcard_subscription_receives_matching_messages() {
    let mut app = connected_app();
    app.new_sub_topic = String::from("sensors/#");
    app.subscribe();
    app.handle_mqtt_event(MqttEvent::MessageReceived {
        topic: String::from("sensors/temp"),
        payload: b"21".to_vec(),
        retain: false,
    });
    let msgs = &app.subscriptions[0].messages;
    assert_eq!(msgs.len(), 1);
    assert_eq!(msgs[0].payload, b"21".to_vec());
    assert!(!msgs[0].retain);
    app.handle_mqtt_event(MqttEvent::MessageReceived {
        topic: String::from("sensors"),
        payload: b"p".to_vec(),
        retain: true,
    });
    assert_eq!(app.subscriptions[0].messages.len(), 2);
    app.handle_mqtt_event(MqttEvent::MessageReceived {
        topic: String::from("actuators/fan"),
        payload: b"on".to_vec(),
        retain: false,
    });
    assert_eq!(app.subscriptions[0].messages.len(), 2);
}
