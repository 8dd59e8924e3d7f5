use vstd::prelude::*;

use crate::app::state::Focus;

verus! {

/// The help line for the focused field.
pub open spec fn help_line(focus: Focus) -> Seq<char> {
    match focus {
        Focus::Host => "Host: broker address | Tab: next field | ^C: Connect"@,
        Focus::Port => "Port: broker port (default 1883 TCP, 8083 WS) | Tab: next field"@,
        Focus::ClientId => "Client ID: unique MQTT client identifier | Tab: next field"@,
        Focus::Username => "Username: optional MQTT credentials | Tab: next field"@,
        Focus::Password => "Password: optional MQTT credentials (hidden) | Tab: next field"@,
        Focus::SubscribeTopic => "Subscribe topic: e.g. sensors/# | ^S: Subscribe | Tab: next"@,
        Focus::SubscribeQos =>
            "Subscription QoS: 0=fire & forget, 1=at least once, 2=exactly once | Space: cycle"@,
        Focus::PublishTopic => "Publish topic: target topic | ^P: Publish | Tab: next"@,
        Focus::PublishQos => "Publish QoS: 0, 1, or 2 | Space: cycle | ^P: Publish"@,
        Focus::PublishPayload =>
            "Payload: Enter for newline | ^J: JSON/Text | ^R: Retain | ^P: Publish"@,
    }
}

pub fn help_text(focus: Focus) -> (r: &'static str)
    ensures
        r@ == help_line(focus),
{
    match focus {
        Focus::Host => "Host: broker address | Tab: next field | ^C: Connect",
        Focus::Port => "Port: broker port (default 1883 TCP, 8083 WS) | Tab: next field",
        Focus::ClientId => "Client ID: unique MQTT client identifier | Tab: next field",
        Focus::Username => "Username: optional MQTT credentials | Tab: next field",
        Focus::Password => "Password: optional MQTT credentials (hidden) | Tab: next field",
        Focus::SubscribeTopic => "Subscribe topic: e.g. sensors/# | ^S: Subscribe | Tab: next",
        Focus::SubscribeQos =>
            "Subscription QoS: 0=fire & forget, 1=at least once, 2=exactly once | Space: cycle",
        Focus::PublishTopic => "Publish topic: target topic | ^P: Publish | Tab: next",
        Focus::PublishQos => "Publish QoS: 0, 1, or 2 | Space: cycle | ^P: Publish",
        Focus::PublishPayload => "Payload: Enter for newline | ^J: JSON/Text | ^R: Retain | ^P: Publish",
    }
}

} // verus!
