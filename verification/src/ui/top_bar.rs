use vstd::prelude::*;

use crate::app::state::{App, AppView, ConnectionState, Focus};

verus! {

/// A shortcut of the top bar and whether it is highlighted.
#[derive(Debug, Clone, Copy)]
pub struct Shortcut {
    pub label: &'static str,
    pub active: bool,
}

/// Which of the eight shortcuts are highlighted: Connect while connected,
/// Subscribe on the subscription fields, Publish on the publishing fields, and
/// the QoS cycling on the QoS fields.
pub open spec fn shortcut_active(a: AppView, i: int) -> bool {
    if i == 0 {
        a.connection_state == ConnectionState::Connected
    } else if i == 2 {
        a.focus == Focus::SubscribeTopic || a.focus == Focus::SubscribeQos
    } else if i == 4 {
        a.focus == Focus::PublishTopic || a.focus == Focus::PublishQos || a.focus
            == Focus::PublishPayload
    } else if i == 6 {
        a.focus == Focus::SubscribeQos || a.focus == Focus::PublishQos
    } else {
        false
    }
}

pub open spec fn shortcut_label(i: int) -> Seq<char> {
    if i == 0 {
        "^C:Connect"@
    } else if i == 1 {
        "^D:Disconnect"@
    } else if i == 2 {
        "^S:Subscribe"@
    } else if i == 3 {
        "^U:Unsubscribe"@
    } else if i == 4 {
        "^P:Publish"@
    } else if i == 5 {
        "^W:WS/TCP"@
    } else if i == 6 {
        "Spc:Cycle"@
    } else {
        "^Q:Quit"@
    }
}

pub fn top_bar_items(app: &App) -> (r: Vec<Shortcut>)
    ensures
        r@.len() == 8,
        forall|i: int|
            0 <= i < 8 ==> (#[trigger] r@[i]).label@ == shortcut_label(i) && r@[i].active
                == shortcut_active(app@, i),
{
    let connected = app.connection_state == ConnectionState::Connected;
    let f = app.focus;
    let mut r: Vec<Shortcut> = Vec::new();
    r.push(Shortcut { label: "^C:Connect", active: connected });
    r.push(Shortcut { label: "^D:Disconnect", active: false });
    r.push(
        Shortcut {
            label: "^S:Subscribe",
            active: f == Focus::SubscribeTopic || f == Focus::SubscribeQos,
        },
    );
    r.push(Shortcut { label: "^U:Unsubscribe", active: false });
    r.push(
        Shortcut {
            label: "^P:Publish",
            active: f == Focus::PublishTopic || f == Focus::PublishQos || f == Focus::PublishPayload,
        },
    );
    r.push(Shortcut { label: "^W:WS/TCP", active: false });
    r.push(Shortcut { label: "Spc:Cycle", active: f == Focus::SubscribeQos || f == Focus::PublishQos });
    r.push(Shortcut { label: "^Q:Quit", active: false });
    r
}

} // verus!
