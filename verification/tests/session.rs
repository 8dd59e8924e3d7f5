use rust_mqtt_client_tui::app::state::{App, ConnectionConfig};
use rust_mqtt_client_tui::mqtt::client::{
    build_client_options, client_options_from, default_options, failure_event,
    fallback_options_with_id, plan_command,
    translate_poll, u8_to_qos, MqttCmd, MqttEvent, NetPoll, QosLevel, RequestKind, SessionStep,
};

fn config() -> ConnectionConfig {
    let mut c = App::new().connection_config;
    c.host = String::from("broker");
    c.client_id = String::from("me");
    c
}

#[test]
fn qos_mapping() {
    assert_eq!(u8_to_qos(0), QosLevel::AtMostOnce);
    assert_eq!(u8_to_qos(1), QosLevel::AtLeastOnce);
    assert_eq!(u8_to_qos(2), QosLevel::ExactlyOnce);
    assert_eq!(u8_to_qos(200), QosLevel::ExactlyOnce);
}

#[test]
fn options_need_a_host() {
    let mut c = config();
    c.host = String::new();
    assert!(build_client_options(&c).is_none());
}

#[test]
fn options_follow_the_configuration() {
    let mut c = config();
    let o = build_client_options(&c).unwrap();
    assert_eq!(o.client_id, "me");
    assert_eq!(o.host, "broker");
    assert_eq!(o.port, 1883);
    assert_eq!(o.keep_alive_secs, 60);
    assert!(o.clean_session);
    assert!(o.credentials.is_none());
    assert!(!o.use_websockets);
    c.port = 0;
    c.use_websockets = true;
    c.username = String::from("u");
    c.password = String::from("p");
    let o = client_options_from(&c, String::from("x"));
    assert_eq!(o.port, 8083);
    assert!(o.use_websockets);
    let cred = o.credentials.unwrap();
    assert_eq!(cred.username, "u");
    assert_eq!(cred.password, "p");
    c.use_websockets = false;
    assert_eq!(client_options_from(&c, String::from("x")).port, 1883);
    c.username = String::new();
    assert!(client_options_from(&c, String::from("x")).credentials.is_none());
}

#[test]
fn empty_client_id_gets_a_fresh_one() {
    let mut c = config();
    c.client_id = String::new();
    let o = build_client_options(&c).unwrap();
    assert!(o.client_id.starts_with("mqtt_tui_"));
    assert_eq!(o.client_id.len(), 17);
}

#[test]
fn default_options_values() {
    let o = default_options();
    assert_eq!(o.host, "localhost");
    assert_eq!(o.port, 1883);
    assert!(o.client_id.starts_with("mqtt_tui_"));
}

#[test]
fn command_plans() {
    match plan_command(MqttCmd::Connect(config()), true) {
        SessionStep::StartClient { options, replace_running } => {
            assert!(replace_running);
            assert_eq!(options.host, "broker");
        }
        other => panic!("unexpected {:?}", other),
    }
    let mut c = config();
    c.host = String::new();
    match plan_command(MqttCmd::Connect(c), false) {
        SessionStep::StartClient { options, replace_running } => {
            assert!(!replace_running);
            assert_eq!(options.host, "localhost");
        }
        other => panic!("unexpected {:?}", other),
    }
    match plan_command(MqttCmd::Disconnect, false) {
        SessionStep::StopClient { reports } => {
            assert_eq!(reports.len(), 1);
            assert!(matches!(reports[0], MqttEvent::Disconnected));
        }
        other => panic!("unexpected {:?}", other),
    }
    let sub = MqttCmd::Subscribe { topic: String::from("t"), qos: 1 };
    assert!(matches!(plan_command(sub.clone(), false), SessionStep::Ignore));
    match plan_command(sub, true) {
        SessionStep::Subscribe { topic, qos } => {
            assert_eq!(topic, "t");
            assert_eq!(qos, QosLevel::AtLeastOnce);
        }
        other => panic!("unexpected {:?}", other),
    }
    let unsub = MqttCmd::Unsubscribe { topic: String::from("t") };
    assert!(matches!(plan_command(unsub.clone(), false), SessionStep::Ignore));
    assert!(matches!(plan_command(unsub, true), SessionStep::Unsubscribe { .. }));
    let publ = MqttCmd::Publish { topic: String::from("t"), qos: 5, retain: true, payload: vec![1, 2] };
    assert!(matches!(plan_command(publ.clone(), false), SessionStep::Ignore));
    match plan_command(publ, true) {
        SessionStep::Publish { topic, qos, retain, payload } => {
            assert_eq!(topic, "t");
            assert_eq!(qos, QosLevel::ExactlyOnce);
            assert!(retain);
            assert_eq!(payload, vec![1, 2]);
        }
        other => panic!("unexpected {:?}", other),
    }
}

#[test]
fn failure_messages() {
    let e = failure_event(RequestKind::Subscribe, "a/b", "closed");
    assert!(matches!(e, MqttEvent::Error(ref m) if m == "Subscribe failed for 'a/b': closed"));
    let e = failure_event(RequestKind::Unsubscribe, "a", "x");
    assert!(matches!(e, MqttEvent::Error(ref m) if m == "Unsubscribe failed for 'a': x"));
    let e = failure_event(RequestKind::Publish, "a", "x");
    assert!(matches!(e, MqttEvent::Error(ref m) if m == "Publish failed to 'a': x"));
}

#[test]
fn poll_translation() {
    let out = translate_poll(NetPoll::Publish { topic: String::from("t"), payload: vec![7], retain: true });
    assert!(!out.stop);
    assert!(matches!(&out.events[..], [MqttEvent::MessageReceived { topic, payload, retain: true }]
        if topic == "t" && payload == &vec![7u8]));
    let out = translate_poll(NetPoll::ConnAck);
    assert!(!out.stop);
    assert!(matches!(&out.events[..], [MqttEvent::Connected]));
    let out = translate_poll(NetPoll::Other);
    assert!(!out.stop && out.events.is_empty());
    let out = translate_poll(NetPoll::Failed(String::from("refused")));
    assert!(out.stop);
    assert!(matches!(&out.events[..], [MqttEvent::Error(e), MqttEvent::Disconnected] if e == "refused"));
}

#[test]
fn fallback_options_values() {
    let o = fallback_options_with_id(String::from("id"));
    assert_eq!(o.client_id, "id");
    assert_eq!(o.host, "localhost");
    assert_eq!(o.port, 1883);
    assert_eq!(o.keep_alive_secs, 60);
    assert!(o.clean_session);
    assert!(o.credentials.is_none());
    assert!(!o.use_websockets);
}
