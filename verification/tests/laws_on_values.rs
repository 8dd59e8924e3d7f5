use rust_mqtt_client_tui::app::state::{color_for_index, App, ConnectionState, Focus, TopicColor};
use rust_mqtt_client_tui::events::handler::{handle_action, Action};
use rust_mqtt_client_tui::mqtt::client::MqttEvent;

fn snapshot(app: &App) -> String {
    format!(
        "{:?}|{}|{}|{}|{}|{}|{}|{:?}|{}|{}|{}",
        app.connection_config,
        app.host_cursor,
        app.client_id_cursor,
        app.username_cursor,
        app.password_cursor,
        app.new_sub_topic,
        app.new_sub_topic_cursor,
        app.publish_form,
        app.publish_topic_cursor,
        app.status_message,
        app.focus as u8
    )
}

#[test]
fn typing_then_backspace_restores_every_text_field() {
    let fields = [
        Focus::Host,
        Focus::ClientId,
        Focus::Username,
        Focus::Password,
        Focus::SubscribeTopic,
        Focus::PublishTopic,
        Focus::PublishPayload,
        Focus::SubscribeQos,
    ];
    for f in fields {
        let mut app = App::new();
        app.focus = f;
        for c in "ab".chars() {
            app.insert_char(c);
        }
        app.move_cursor_left();
        let before = snapshot(&app);
        app.insert_char('z');
        app.backspace();
        assert_eq!(snapshot(&app), before);
    }
}

#[test]
fn tab_and_shift_tab_undo_each_other() {
    let mut app = App::new();
    for _ in 0..10 {
        let f = app.focus;
        app.next_focus();
        app.prev_focus();
        assert_eq!(app.focus, f);
        app.next_focus();
    }
    assert_eq!(app.focus, Focus::Host);
}

#[test]
fn transport_toggle_twice_restores() {
    let mut app = App::new();
    for port in [1883u16, 8083, 0, 9001] {
        app.connection_config.port = port;
        handle_action(&mut app, Action::ToggleWebSockets);
        handle_action(&mut app, Action::ToggleWebSockets);
        assert_eq!(app.connection_config.port, port);
        assert!(!app.connection_config.use_websockets);
    }
}

#[test]
fn three_qos_cycles_restore() {
    let mut app = App::new();
    app.focus = Focus::PublishQos;
    for _ in 0..3 {
        handle_action(&mut app, Action::CycleValue);
    }
    assert_eq!(app.publish_form.qos, 0);
    assert_eq!(app.publish_qos_idx, 0);
}

#[test]
fn subscribe_then_unsubscribe_restores_list() {
    let mut app = App::new();
    app.handle_mqtt_event(MqttEvent::Connected);
    app.new_sub_topic = String::from("a");
    app.subscribe();
    let before: Vec<String> = app.subscriptions.iter().map(|s| s.topic.clone()).collect();
    app.new_sub_topic = String::from("new");
    app.subscribe();
    app.unsubscribe();
    let after: Vec<String> = app.subscriptions.iter().map(|s| s.topic.clone()).collect();
    assert_eq!(before, after);
}

#[test]
fn invalid_json_is_never_queued() {
    let mut app = App::new();
    app.handle_mqtt_event(MqttEvent::Connected);
    app.publish_form.topic = String::from("t");
    app.publish_form.is_json = true;
    app.publish_form.payload_lines = vec![String::from("[1, 2")];
    app.publish();
    assert!(app.take_commands().is_empty());
    assert_eq!(app.status_message, "Invalid JSON payload");
}

#[test]
fn nothing_is_sent_while_disconnected() {
    let mut app = App::new();
    assert_eq!(app.connection_state, ConnectionState::Disconnected);
    app.new_sub_topic = String::from("t");
    app.subscribe();
    app.publish_form.topic = String::from("t");
    app.publish();
    app.unsubscribe();
    assert!(app.take_commands().is_empty());
}

#[test]
fn topics_stay_unique_and_focus_in_range() {
    let mut app = App::new();
    app.handle_mqtt_event(MqttEvent::Connected);
    for t in ["a", "b", "a", " b ", "c", "a"] {
        app.new_sub_topic = String::from(t);
        handle_action(&mut app, Action::Subscribe);
        let mut topics: Vec<&str> = app.subscriptions.iter().map(|s| s.topic.as_str()).collect();
        topics.sort();
        topics.dedup();
        assert_eq!(topics.len(), app.subscriptions.len());
        assert!(app.focused_subscription < app.subscriptions.len());
    }
    for _ in 0..4 {
        handle_action(&mut app, Action::Unsubscribe);
        assert!(app.subscriptions.is_empty() || app.focused_subscription < app.subscriptions.len());
    }
    assert_eq!(app.focused_subscription, 0);
}

#[test]
fn message_for_unknown_topic_changes_nothing() {
    let mut app = App::new();
    let before = snapshot(&app);
    app.handle_mqtt_event(MqttEvent::MessageReceived {
        topic: String::from("nobody"),
        payload: vec![1],
        retain: true,
    });
    assert_eq!(snapshot(&app), before);
    assert!(app.subscriptions.is_empty());
}

#[test]
fn topics_keep_their_colours() {
    let mut app = App::new();
    app.handle_mqtt_event(MqttEvent::Connected);
    for t in ["a", "b", "c"] {
        app.new_sub_topic = String::from(t);
        app.subscribe();
    }
    app.focused_subscription = 0;
    app.unsubscribe();
    // "b" and "c" keep Green and Yellow after "a" leaves.
    assert_eq!(app.subscriptions[0].color, TopicColor::Green);
    assert_eq!(app.subscriptions[1].color, TopicColor::Yellow);
    app.new_sub_topic = String::from("d");
    app.subscribe();
    // Round robin would give Yellow, which "c" has: the next free entry is Blue.
    assert_eq!(app.subscriptions[2].color, TopicColor::Blue);
    app.handle_mqtt_event(MqttEvent::MessageReceived {
        topic: String::from("b"),
        payload: vec![1],
        retain: false,
    });
    assert_eq!(app.subscriptions[0].color, TopicColor::Green);
}

#[test]
fn repeated_disconnected_is_harmless() {
    let mut app = App::new();
    app.handle_mqtt_event(MqttEvent::Connected);
    app.handle_mqtt_event(MqttEvent::Disconnected);
    let once = snapshot(&app);
    let state_once = app.connection_state;
    app.handle_mqtt_event(MqttEvent::Disconnected);
    assert_eq!(snapshot(&app), once);
    assert_eq!(app.connection_state, state_once);
}

#[test]
fn palette_has_twelve_distinct_colours() {
    for i in 0..12 {
        for j in 0..12 {
            if i != j {
                assert_ne!(color_for_index(i), color_for_index(j));
            }
        }
        assert_eq!(color_for_index(i + 12), color_for_index(i));
    }
}

#[test]
fn colours_stay_distinct_while_topics_come_and_go() {
    let mut app = App::new();
    app.handle_mqtt_event(MqttEvent::Connected);
    for t in ["a", "b"] {
        app.new_sub_topic = String::from(t);
        app.subscribe();
    }
    app.focused_subscription = 0;
    app.unsubscribe();
    app.new_sub_topic = String::from("c");
    app.subscribe();
    assert_eq!(app.subscriptions[0].color, TopicColor::Green);
    assert_eq!(app.subscriptions[1].color, TopicColor::Yellow);
    for i in 0..9 {
        app.new_sub_topic = format!("t{}", i);
        app.subscribe();
    }
    assert_eq!(app.subscriptions.len(), 11);
    for i in 0..11 {
        for j in 0..11 {
            if i != j {
                assert_ne!(app.subscriptions[i].color, app.subscriptions[j].color);
            }
        }
    }
    // The twelfth topic gets the one colour left, wrapping round the palette.
    app.new_sub_topic = String::from("last");
    app.subscribe();
    assert_eq!(app.subscriptions[11].color, TopicColor::Red);
    // With all twelve taken, the palette repeats by position.
    app.new_sub_topic = String::from("more");
    app.subscribe();
    assert_eq!(app.subscriptions[12].color, TopicColor::Red);
}

#[test]
fn a_message_reaches_every_matching_filter_and_nothing_else() {
    let mut app = App::new();
    app.handle_mqtt_event(MqttEvent::Connected);
    for t in ["sensors/#", "sensors/+", "sensors/temp", "other"] {
        app.new_sub_topic = String::from(t);
        app.subscribe();
    }
    app.handle_mqtt_event(MqttEvent::MessageReceived {
        topic: String::from("sensors/temp"),
        payload: b"21".to_vec(),
        retain: false,
    });
    for i in 0..3 {
        assert_eq!(app.subscriptions[i].messages.len(), 1);
        assert_eq!(app.subscriptions[i].messages[0].payload, b"21".to_vec());
    }
    assert!(app.subscriptions[3].messages.is_empty());
    let before: Vec<usize> = app.subscriptions.iter().map(|s| s.messages.len()).collect();
    app.handle_mqtt_event(MqttEvent::MessageReceived {
        topic: String::from("nobody/listens"),
        payload: b"x".to_vec(),
        retain: false,
    });
    let after: Vec<usize> = app.subscriptions.iter().map(|s| s.messages.len()).collect();
    assert_eq!(before, after);
}

#[test]
fn round_robin_colour_is_kept_when_free() {
    let mut app = App::new();
    app.handle_mqtt_event(MqttEvent::Connected);
    for t in ["a", "b", "c"] {
        app.new_sub_topic = String::from(t);
        app.subscribe();
    }
    app.focused_subscription = 0;
    app.unsubscribe();
    app.focused_subscription = 0;
    app.unsubscribe();
    assert_eq!(app.subscriptions.len(), 1);
    assert_eq!(app.subscriptions[0].color, TopicColor::Yellow);
    app.new_sub_topic = String::from("d");
    app.subscribe();
    assert_eq!(app.subscriptions[1].color, TopicColor::Green);
}

#[test]
fn a_topic_equal_to_the_filter_is_always_received() {
    let mut app = App::new();
    app.handle_mqtt_event(MqttEvent::Connected);
    app.new_sub_topic = String::from("#/a");
    app.subscribe();
    app.handle_mqtt_event(MqttEvent::MessageReceived {
        topic: String::from("#/a"),
        payload: b"x".to_vec(),
        retain: false,
    });
    assert_eq!(app.subscriptions[0].messages.len(), 1);
    assert_eq!(app.subscriptions[0].messages[0].payload, b"x".to_vec());
}
