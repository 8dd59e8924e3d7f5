use std::collections::VecDeque;

use vstd::prelude::*;

use crate::app::client_id::{generate_client_id, is_generated_client_id};
use crate::app::model::{
    color_used, deliver, first_free_color_from, new_topic_color,
    initial_view, lemma_topic_index_prefix, next_focus_of,
    prev_focus_of, push_capped, quoted_topic_qos, topic_index, empty_text,
};
use crate::mqtt::client::{CmdView, MqttCmd, MqttEvent};
use crate::mqtt::topic::subscription_receives;
use crate::text::{
    append_decimal, backspace_at_cursor, char_index, cursor_right, decimal_text,
    delete_at_cursor, insert_at_byte, insert_at_cursor, join_strings, lemma_decimal_digits,
    lemma_ascii_byte_len, lemma_insert_byte_len, lemma_insert_digit, lemma_remove_digit,
    parse_u16, remove_at_byte, string_insert, string_into_bytes, string_remove,
    string_split_off, text_len, trim_text, views_of, is_blank, trimmed,
};

verus! {

/// Calls `chrono::Local::now` and reads the instant as milliseconds since the Unix
/// epoch. Nothing is claimed of the result: it is the time of the call. (The call
/// panics when the system clock is set before 1970.)
#[verifier::external_body]
pub(crate) fn now_millis() -> i64 {
    chrono::Local::now().timestamp_millis()
}

/// Most messages kept for one topic; the oldest leave first.
pub const MAX_MESSAGES_PER_TOPIC: usize = 500;

/// The colours given to topics, in the order in which topics are subscribed.
#[derive(Debug, Clone, Copy, PartialEq, Eq, Structural)]
pub enum TopicColor {
    Red,
    Green,
    Yellow,
    Blue,
    Magenta,
    Cyan,
    LightRed,
    LightGreen,
    LightYellow,
    LightBlue,
    LightMagenta,
    LightCyan,
}

pub const TOPIC_COLOR_COUNT: usize = 12;

/// The colour of the topic subscribed when `n` topics were already listed.
pub open spec fn topic_color(n: nat) -> TopicColor {
    let i = n % 12;
    if i == 0 {
        TopicColor::Red
    } else if i == 1 {
        TopicColor::Green
    } else if i == 2 {
        TopicColor::Yellow
    } else if i == 3 {
        TopicColor::Blue
    } else if i == 4 {
        TopicColor::Magenta
    } else if i == 5 {
        TopicColor::Cyan
    } else if i == 6 {
        TopicColor::LightRed
    } else if i == 7 {
        TopicColor::LightGreen
    } else if i == 8 {
        TopicColor::LightYellow
    } else if i == 9 {
        TopicColor::LightBlue
    } else if i == 10 {
        TopicColor::LightMagenta
    } else {
        TopicColor::LightCyan
    }
}

/// The colour for a new topic when `n` topics are listed.
pub fn color_for_index(n: usize) -> (c: TopicColor)
    ensures
        c == topic_color(n as nat),
{
    let i = n % TOPIC_COLOR_COUNT;
    if i == 0 {
        TopicColor::Red
    } else if i == 1 {
        TopicColor::Green
    } else if i == 2 {
        TopicColor::Yellow
    } else if i == 3 {
        TopicColor::Blue
    } else if i == 4 {
        TopicColor::Magenta
    } else if i == 5 {
        TopicColor::Cyan
    } else if i == 6 {
        TopicColor::LightRed
    } else if i == 7 {
        TopicColor::LightGreen
    } else if i == 8 {
        TopicColor::LightYellow
    } else if i == 9 {
        TopicColor::LightBlue
    } else if i == 10 {
        TopicColor::LightMagenta
    } else {
        TopicColor::LightCyan
    }
}

#[derive(Debug, Clone, Copy, PartialEq, Eq, Structural)]
pub enum ConnectionState {
    Disconnected,
    Connecting,
    Connected,
}

/// The input field that receives the keys.
#[derive(Debug, Clone, Copy, PartialEq, Eq, Structural)]
pub enum Focus {
    Host,
    Port,
    ClientId,
    Username,
    Password,
    SubscribeTopic,
    SubscribeQos,
    PublishTopic,
    PublishQos,
    PublishPayload,
}

#[derive(Debug, Clone)]
pub struct ConnectionConfig {
    pub host: String,
    pub port: u16,
    pub use_websockets: bool,
    pub client_id: String,
    pub username: String,
    pub password: String,
    pub clean_session: bool,
    pub keep_alive: u16,
}

#[verifier::ext_equal]
pub struct ConfigView {
    pub host: Seq<char>,
    pub port: u16,
    pub use_websockets: bool,
    pub client_id: Seq<char>,
    pub username: Seq<char>,
    pub password: Seq<char>,
    pub clean_session: bool,
    pub keep_alive: u16,
}

impl View for ConnectionConfig {
    type V = ConfigView;

    open spec fn view(&self) -> ConfigView {
        ConfigView {
            host: self.host@,
            port: self.port,
            use_websockets: self.use_websockets,
            client_id: self.client_id@,
            username: self.username@,
            password: self.password@,
            clean_session: self.clean_session,
            keep_alive: self.keep_alive,
        }
    }
}

impl ConnectionConfig {
    /// A copy of the configuration.
    pub fn duplicate(&self) -> (r: ConnectionConfig)
        ensures
            r@ == self@,
    {
        ConnectionConfig {
            host: self.host.clone(),
            port: self.port,
            use_websockets: self.use_websockets,
            client_id: self.client_id.clone(),
            username: self.username.clone(),
            password: self.password.clone(),
            clean_session: self.clean_session,
            keep_alive: self.keep_alive,
        }
    }
}

/// A message received on a subscribed topic.
#[derive(Debug, Clone)]
pub struct MqttMessage {
    pub payload: Vec<u8>,
    pub retain: bool,
    /// When the message arrived, in milliseconds since the Unix epoch.
    pub timestamp: i64,
}

#[verifier::ext_equal]
pub struct MessageView {
    pub payload: Seq<u8>,
    pub retain: bool,
    pub timestamp: i64,
}

impl View for MqttMessage {
    type V = MessageView;

    open spec fn view(&self) -> MessageView {
        MessageView { payload: self.payload@, retain: self.retain, timestamp: self.timestamp }
    }
}

#[derive(Debug, Clone)]
pub struct Subscription {
    pub topic: String,
    pub qos: u8,
    pub color: TopicColor,
    pub messages: VecDeque<MqttMessage>,
    pub scroll_offset: usize,
}

#[verifier::ext_equal]
pub struct SubscriptionView {
    pub topic: Seq<char>,
    pub qos: u8,
    pub color: TopicColor,
    pub messages: Seq<MessageView>,
    pub scroll_offset: usize,
}

impl View for Subscription {
    type V = SubscriptionView;

    open spec fn view(&self) -> SubscriptionView {
        SubscriptionView {
            topic: self.topic@,
            qos: self.qos,
            color: self.color,
            messages: self.messages@.map_values(|m: MqttMessage| m@),
            scroll_offset: self.scroll_offset,
        }
    }
}

#[derive(Debug, Clone)]
pub struct PublishForm {
    pub topic: String,
    pub qos: u8,
    pub retain: bool,
    pub is_json: bool,
    pub payload_lines: Vec<String>,
    pub cursor_line: usize,
    pub cursor_col: usize,
}

#[verifier::ext_equal]
pub struct PublishFormView {
    pub topic: Seq<char>,
    pub qos: u8,
    pub retain: bool,
    pub is_json: bool,
    pub payload_lines: Seq<Seq<char>>,
    pub cursor_line: usize,
    pub cursor_col: usize,
}

impl View for PublishForm {
    type V = PublishFormView;

    open spec fn view(&self) -> PublishFormView {
        PublishFormView {
            topic: self.topic@,
            qos: self.qos,
            retain: self.retain,
            is_json: self.is_json,
            payload_lines: views_of(self.payload_lines@),
            cursor_line: self.cursor_line,
            cursor_col: self.cursor_col,
        }
    }
}

/// The whole state of the client. Commands for the MQTT session task wait in
/// `cmd_queue` until the event loop hands them over; once the channel to the
/// task is closed, `cmd_queue` is `None` and no command is queued any more.
pub struct App {
    pub connection_config: ConnectionConfig,
    pub connection_state: ConnectionState,
    pub subscriptions: Vec<Subscription>,
    pub focused_subscription: usize,
    pub publish_form: PublishForm,
    pub focus: Focus,
    pub status_message: String,
    pub should_quit: bool,
    pub cursor_visible: bool,
    pub blink_tick: u64,
    pub cmd_queue: Option<Vec<MqttCmd>>,
    pub new_sub_topic: String,
    pub new_sub_topic_cursor: usize,
    pub new_sub_qos: u8,
    pub host_cursor: usize,
    pub port_cursor: usize,
    pub client_id_cursor: usize,
    pub username_cursor: usize,
    pub password_cursor: usize,
    pub publish_topic_cursor: usize,
    pub publish_qos_idx: usize,
}

#[verifier::ext_equal]
pub struct AppView {
    pub connection_config: ConfigView,
    pub connection_state: ConnectionState,
    pub subscriptions: Seq<SubscriptionView>,
    pub focused_subscription: usize,
    pub publish_form: PublishFormView,
    pub focus: Focus,
    pub status_message: Seq<char>,
    pub should_quit: bool,
    pub cursor_visible: bool,
    pub blink_tick: u64,
    pub cmd_queue: Option<Seq<CmdView>>,
    pub new_sub_topic: Seq<char>,
    pub new_sub_topic_cursor: usize,
    pub new_sub_qos: u8,
    pub host_cursor: usize,
    pub port_cursor: usize,
    pub client_id_cursor: usize,
    pub username_cursor: usize,
    pub password_cursor: usize,
    pub publish_topic_cursor: usize,
    pub publish_qos_idx: usize,
}

pub open spec fn cmd_views(q: Seq<MqttCmd>) -> Seq<CmdView> {
    q.map_values(|c: MqttCmd| c@)
}

pub open spec fn sub_views(s: Seq<Subscription>) -> Seq<SubscriptionView> {
    s.map_values(|x: Subscription| x@)
}

impl View for App {
    type V = AppView;

    open spec fn view(&self) -> AppView {
        AppView {
            connection_config: self.connection_config@,
            connection_state: self.connection_state,
            subscriptions: sub_views(self.subscriptions@),
            focused_subscription: self.focused_subscription,
            publish_form: self.publish_form@,
            focus: self.focus,
            status_message: self.status_message@,
            should_quit: self.should_quit,
            cursor_visible: self.cursor_visible,
            blink_tick: self.blink_tick,
            cmd_queue: match self.cmd_queue {
                Some(q) => Some(cmd_views(q@)),
                None => None,
            },
            new_sub_topic: self.new_sub_topic@,
            new_sub_topic_cursor: self.new_sub_topic_cursor,
            new_sub_qos: self.new_sub_qos,
            host_cursor: self.host_cursor,
            port_cursor: self.port_cursor,
            client_id_cursor: self.client_id_cursor,
            username_cursor: self.username_cursor,
            password_cursor: self.password_cursor,
            publish_topic_cursor: self.publish_topic_cursor,
            publish_qos_idx: self.publish_qos_idx,
        }
    }
}

/// Whether a listed topic has colour `c`.
fn color_in_use(subs: &Vec<Subscription>, c: TopicColor) -> (r: bool)
    ensures
        r == color_used(sub_views(subs@), c),
{
    let n = subs.len();
    let mut i: usize = 0;
    while i < n
        invariant
            n == subs@.len(),
            0 <= i <= n,
            forall|j: int| 0 <= j < i ==> subs@[j].color != c,
        decreases n - i,
    {
        if subs[i].color == c {
            assert(sub_views(subs@)[i as int].color == c);
            return true;
        }
        i = i + 1;
    }
    proof {
        if color_used(sub_views(subs@), c) {
            let j = choose|j: int| 0 <= j < n && sub_views(subs@)[j].color == c;
            assert(subs@[j].color == c);
        }
    }
    false
}

/// The colour for a newly subscribed topic: the round-robin palette entry when it
/// is free, else the next free one after it.
fn free_topic_color(subs: &Vec<Subscription>) -> (c: TopicColor)
    ensures
        c == new_topic_color(sub_views(subs@)),
{
    let ghost views = sub_views(subs@);
    let start = subs.len() % TOPIC_COLOR_COUNT;
    let mut k: usize = 0;
    while k < TOPIC_COLOR_COUNT
        invariant
            0 <= k <= 12,
            start == subs@.len() % 12,
            views == sub_views(subs@),
            first_free_color_from(views, start as nat, 0) == first_free_color_from(
                views,
                start as nat,
                k as nat,
            ),
        decreases 12 - k,
    {
        let c = color_for_index(start + k);
        if !color_in_use(subs, c) {
            return c;
        }
        k = k + 1;
    }
    color_for_index(subs.len())
}

/// Appends `topic' (QoS n)` (without the opening quote) to `msg`.
pub fn append_topic_qos(msg: &mut String, topic: &str, qos: u8)
    ensures
        final(msg)@ == old(msg)@ + quoted_topic_qos(topic@, qos),
{
    msg.append(topic);
    msg.append("' (QoS ");
    append_decimal(msg, qos as u64);
    msg.append(")");
    proof {
        assert(final(msg)@ =~= old(msg)@ + quoted_topic_qos(topic@, qos));
    }
}

/// JSON validity of a text, as `serde_json` decides it.
pub uninterp spec fn json_value_parses(text: Seq<char>) -> bool;

/// Calls `serde_json::from_str::<serde_json::Value>` and tells whether it succeeded.
/// The contract names the verdict, which depends on the text alone, and claims one
/// fact of it: a text of nothing but whitespace is refused (the parser skips JSON
/// whitespace and then finds either the end of the input or a byte that begins no
/// JSON value).
#[verifier::external_body]
pub(crate) fn parses_as_json(text: &str) -> (ok: bool)
    ensures
        ok == json_value_parses(text@),
        is_blank(text@) ==> !ok,
{
    serde_json::from_str::<serde_json::Value>(text).is_ok()
}

impl App {
    /// A fresh client: disconnected, focus on the host field, a random client
    /// identifier, and an open channel with no command waiting.
    pub fn new() -> (app: App)
        ensures
            app@ == initial_view(app@.connection_config.client_id),
            is_generated_client_id(app@.connection_config.client_id),
            app@.client_id_cursor == 16,
    {
        App::with_client_id(generate_client_id())
    }

    /// A fresh client with the given client identifier.
    pub fn with_client_id(client_id: String) -> (app: App)
        ensures
            app@ == initial_view(client_id@),
    {
        let id_len = text_len(client_id.as_str());
        let mut status_message = String::new();
        status_message.append("Disconnected | ^C: Connect  ^Q: Quit");
        let mut payload_lines: Vec<String> = Vec::new();
        payload_lines.push(String::new());
        let app = App {
            connection_config: ConnectionConfig {
                host: String::new(),
                port: 1883,
                use_websockets: false,
                client_id: client_id,
                username: String::new(),
                password: String::new(),
                clean_session: true,
                keep_alive: 60,
            },
            connection_state: ConnectionState::Disconnected,
            subscriptions: Vec::new(),
            focused_subscription: 0,
            publish_form: PublishForm {
                topic: String::new(),
                qos: 0,
                retain: false,
                is_json: false,
                payload_lines: payload_lines,
                cursor_line: 0,
                cursor_col: 0,
            },
            focus: Focus::Host,
            status_message: status_message,
            should_quit: false,
            cursor_visible: true,
            blink_tick: 0,
            cmd_queue: Some(Vec::new()),
            new_sub_topic: String::new(),
            new_sub_topic_cursor: 0,
            new_sub_qos: 0,
            host_cursor: 0,
            port_cursor: 0,
            client_id_cursor: id_len.saturating_sub(1),
            username_cursor: 0,
            password_cursor: 0,
            publish_topic_cursor: 0,
            publish_qos_idx: 0,
        };
        proof {
            assert(views_of(app.publish_form.payload_lines@) =~= seq![empty_text()]);
            assert(sub_views(app.subscriptions@) =~= Seq::<SubscriptionView>::empty());
            assert(cmd_views(app.cmd_queue->0@) =~= Seq::<CmdView>::empty());
            assert(app@ =~= initial_view(app@.connection_config.client_id));
        }
        app
    }

    /// Hands over the commands waiting for the session task; the queue stays open
    /// and empty.
    pub fn take_commands(&mut self) -> (cmds: Vec<MqttCmd>)
        ensures
            cmd_views(cmds@) == match old(self)@.cmd_queue {
                Some(q) => q,
                None => Seq::empty(),
            },
            final(self)@ == (AppView {
                cmd_queue: match old(self)@.cmd_queue {
                    Some(_) => Some(Seq::empty()),
                    None => None,
                },
                ..old(self)@
            }),
    {
        match &mut self.cmd_queue {
            Some(q) => {
                let mut out: Vec<MqttCmd> = Vec::new();
                std::mem::swap(&mut out, q);
                proof {
                    assert(cmd_views(q@) =~= Seq::<CmdView>::empty());
                }
                out
            },
            None => {
                let out: Vec<MqttCmd> = Vec::new();
                proof {
                    assert(cmd_views(out@) =~= Seq::<CmdView>::empty());
                }
                out
            },
        }
    }

    /// Closes the channel to the session task: the commands still waiting are
    /// handed over and no command is queued any more.
    pub fn close_command_channel(&mut self) -> (cmds: Vec<MqttCmd>)
        ensures
            cmd_views(cmds@) == match old(self)@.cmd_queue {
                Some(q) => q,
                None => Seq::empty(),
            },
            final(self)@ == (AppView { cmd_queue: None, ..old(self)@ }),
    {
        let cmds = match self.cmd_queue.take() {
            Some(q) => q,
            None => Vec::new(),
        };
        proof {
            if old(self).cmd_queue is None {
                assert(cmd_views(cmds@) =~= Seq::<CmdView>::empty());
            }
        }
        cmds
    }

    /// Queues `cmd` for the session task, while the channel to it is open.
    fn enqueue(&mut self, cmd: MqttCmd)
        ensures
            final(self)@ == old(self)@.queued(cmd@),
    {
        match &mut self.cmd_queue {
            Some(q) => {
                q.push(cmd);
                proof {
                    assert(cmd_views(q@) =~= cmd_views(old(self).cmd_queue->0@).push(cmd@));
                }
            },
            None => {},
        }
    }

    /// The index of the first subscription whose filter is exactly `topic`.
    pub fn find_subscription(&self, topic: &String) -> (r: Option<usize>)
        ensures
            r matches Some(i) ==> topic_index(self@.subscriptions, topic@) == Some(i as int) && i
                < self.subscriptions@.len(),
            r is None ==> topic_index(self@.subscriptions, topic@) is None,
    {
        let n = self.subscriptions.len();
        let mut i: usize = 0;
        while i < n
            invariant
                n == self.subscriptions@.len(),
                0 <= i <= n,
                topic_index(self@.subscriptions.take(i as int), topic@) is None,
            decreases n - i,
        {
            proof {
                assert(self@.subscriptions.take(i + 1).drop_last() =~= self@.subscriptions.take(
                    i as int,
                ));
            }
            if self.subscriptions[i].topic.eq(topic) {
                proof {
                    lemma_topic_index_prefix(self@.subscriptions, topic@, i as int + 1);
                }
                assert(i < self.subscriptions@.len());
                return Some(i);
            }
            i = i + 1;
        }
        proof {
            assert(self@.subscriptions.take(n as int) =~= self@.subscriptions);
        }
        None
    }

    /// Asks the session task to connect with the current settings, unless already
    /// connected or no host is given.
    pub fn connect(&mut self)
        ensures
            final(self)@ == old(self)@.after_connect(),
    {
        if self.connection_state == ConnectionState::Connected {
            self.status_message = String::new();
            self.status_message.append("Already connected");
            return;
        }
        let host = trim_text(self.connection_config.host.as_str());
        if host.is_empty() {
            self.status_message = String::new();
            self.status_message.append("Host is required");
            return;
        }
        if self.cmd_queue.is_some() {
            let mut msg = String::new();
            msg.append("Connecting to ");
            msg.append(host);
            msg.append(":");
            append_decimal(&mut msg, self.connection_config.port as u64);
            msg.append("...");
            self.connection_state = ConnectionState::Connecting;
            self.status_message = msg;
            let config = self.connection_config.duplicate();
            self.enqueue(MqttCmd::Connect(config));
        }
    }

    /// Subscribes to the topic typed in the subscription form (trimmed) with the
    /// chosen QoS; a topic already listed gets the new QoS.
    pub fn subscribe(&mut self)
        ensures
            final(self)@ == old(self)@.after_subscribe(),
    {
        let topic = trim_text(self.new_sub_topic.as_str()).to_owned();
        if topic.as_str().is_empty() {
            self.status_message = String::new();
            self.status_message.append("Topic is required for subscription");
            return;
        }
        if self.connection_state != ConnectionState::Connected {
            self.status_message = String::new();
            self.status_message.append("Not connected to a broker");
            return;
        }
        let qos = self.new_sub_qos;
        self.enqueue(MqttCmd::Subscribe { topic: topic.clone(), qos: qos });
        let ghost queued = self@;
        match self.find_subscription(&topic) {
            None => {
                let color = free_topic_color(&self.subscriptions);
                let mut msg = String::new();
                msg.append("Subscribed to '");
                append_topic_qos(&mut msg, topic.as_str(), qos);
                let ghost old_subs = self.subscriptions@;
                let sub = Subscription {
                    topic: topic,
                    qos: qos,
                    color: color,
                    messages: VecDeque::new(),
                    scroll_offset: 0,
                };
                proof {
                    assert(sub@.messages =~= Seq::<MessageView>::empty());
                }
                self.subscriptions.push(sub);
                self.focused_subscription = self.subscriptions.len().saturating_sub(1);
                self.status_message = msg;
                proof {
                    assert(sub_views(self.subscriptions@) =~= sub_views(old_subs).push(sub@));
                }
            },
            Some(i) => {
                let ghost old_subs = self.subscriptions@;
                self.subscriptions[i].qos = qos;
                let mut msg = String::new();
                msg.append("Updated subscription '");
                append_topic_qos(&mut msg, topic.as_str(), qos);
                self.status_message = msg;
                proof {
                    assert(sub_views(self.subscriptions@) =~= sub_views(old_subs).update(
                        i as int,
                        SubscriptionView { qos: qos, ..sub_views(old_subs)[i as int] },
                    ));
                }
            },
        }
    }

    /// Removes the focused topic (the last one when the focus is past the end) and,
    /// while connected, asks the session task to unsubscribe.
    pub fn unsubscribe(&mut self)
        ensures
            final(self)@ == old(self)@.after_unsubscribe(),
    {
        let n = self.subscriptions.len();
        if n == 0 {
            return;
        }
        let last = n - 1;
        let idx = if self.focused_subscription < last {
            self.focused_subscription
        } else {
            last
        };
        let topic = self.subscriptions[idx].topic.clone();
        if self.connection_state == ConnectionState::Connected {
            self.enqueue(MqttCmd::Unsubscribe { topic: topic.clone() });
        }
        let ghost old_subs = self.subscriptions@;
        self.subscriptions.remove(idx);
        proof {
            assert(sub_views(self.subscriptions@) =~= sub_views(old_subs).remove(idx as int));
        }
        if self.subscriptions.len() == 0 {
            self.focused_subscription = 0;
        } else if self.focused_subscription >= self.subscriptions.len() {
            self.focused_subscription = self.subscriptions.len().saturating_sub(1);
        }
        let mut msg = String::new();
        msg.append("Unsubscribed from '");
        msg.append(topic.as_str());
        msg.append("'");
        self.status_message = msg;
    }

    /// Publishing, with `payload_is_json` standing for whether the payload text
    /// parses as JSON.
    pub fn publish_with_verdict(&mut self, payload_is_json: bool)
        ensures
            final(self)@ == old(self)@.after_publish(payload_is_json),
    {
        let topic = trim_text(self.publish_form.topic.as_str()).to_owned();
        if topic.as_str().is_empty() {
            self.status_message = String::new();
            self.status_message.append("Topic is required for publishing");
            return;
        }
        let payload = join_strings(&self.publish_form.payload_lines, "\n");
        if self.publish_form.is_json && !payload_is_json {
            self.status_message = String::new();
            self.status_message.append("Invalid JSON payload");
            return;
        }
        if self.connection_state != ConnectionState::Connected {
            self.status_message = String::new();
            self.status_message.append("Not connected to a broker");
            return;
        }
        if self.cmd_queue.is_some() {
            let qos = self.publish_form.qos;
            let mut msg = String::new();
            msg.append("Published to '");
            append_topic_qos(&mut msg, topic.as_str(), qos);
            let retain = self.publish_form.retain;
            self.enqueue(
                MqttCmd::Publish {
                    topic: topic,
                    qos: qos,
                    retain: retain,
                    payload: string_into_bytes(payload),
                },
            );
            self.status_message = msg;
        }
    }

    /// Publishes the form: the payload is checked as JSON when the form says JSON.
    pub fn publish(&mut self)
        ensures
            final(self)@ == old(self)@.after_publish(json_value_parses(old(self)@.payload_text())),
            trimmed(old(self)@.publish_form.topic).len() > 0 && old(self)@.publish_form.is_json
                && is_blank(old(self)@.payload_text()) ==> final(self)@ == old(self)@.with_status(
                "Invalid JSON payload"@,
            ),
    {
        let mut verdict = true;
        if self.publish_form.is_json {
            let payload = join_strings(&self.publish_form.payload_lines, "\n");
            verdict = parses_as_json(payload.as_str());
        }
        self.publish_with_verdict(verdict);
    }

    /// Applies an event of the session task: connection changes, and received
    /// messages stored under every subscription that receives their topic,
    /// stamped with the current time.
    pub fn handle_mqtt_event(&mut self, event: MqttEvent)
        ensures
            exists|now: i64| final(self)@ == old(self)@.after_event(event@, now),
    {
        let now = match &event {
            MqttEvent::MessageReceived { .. } => now_millis(),
            _ => 0,
        };
        self.handle_mqtt_event_at(event, now);
    }

    /// Applies an event of the session task, a received message arriving at `now`
    /// (milliseconds since the Unix epoch).
    pub fn handle_mqtt_event_at(&mut self, event: MqttEvent, now: i64)
        ensures
            final(self)@ == old(self)@.after_event(event@, now),
    {
        let ghost e = event@;
        match event {
            MqttEvent::Connected => {
                self.connection_state = ConnectionState::Connected;
                self.status_message = String::new();
                self.status_message.append("Connected");
                
            },
            MqttEvent::Disconnected => {
                self.connection_state = ConnectionState::Disconnected;
                self.status_message = String::new();
                self.status_message.append("Disconnected");
                
            },
            MqttEvent::MessageReceived { topic, payload, retain } => {
                let ghost m = MessageView { payload: payload@, retain: retain, timestamp: now };
                let ghost before = self@;
                let ghost old_views = self@.subscriptions;
                let ghost target = deliver(old_views, topic@, m);
                let n = self.subscriptions.len();
                let mut i: usize = 0;
                while i < n
                    invariant
                        n == self.subscriptions@.len(),
                        m == (MessageView { payload: payload@, retain: retain, timestamp: now }),
                        before == old(self)@,
                        old_views == before.subscriptions,
                        target == deliver(old_views, topic@, m),
                        old_views.len() == n,
                        0 <= i <= n,
                        self@ == (AppView { subscriptions: self@.subscriptions, ..before }),
                        forall|j: int| 0 <= j < i ==> #[trigger] self@.subscriptions[j] == target[j],
                        forall|j: int| i <= j < n ==> #[trigger] self@.subscriptions[j] == old_views[j],
                    decreases n - i,
                {
                    if subscription_receives(&self.subscriptions[i].topic, &topic) {
                        let copy = payload.clone();
                        assert(copy@ =~= payload@);
                        let msg = MqttMessage { payload: copy, retain: retain, timestamp: now };
                        assert(msg@ =~= m);
                        let ghost old_subs = self.subscriptions@;
                        let ghost old_msgs = self.subscriptions@[i as int].messages@;
                        if self.subscriptions[i].messages.len() >= MAX_MESSAGES_PER_TOPIC {
                            self.subscriptions[i].messages.pop_front();
                        }
                        self.subscriptions[i].messages.push_back(msg);
                        proof {
                            let new_msgs = self.subscriptions@[i as int].messages@;
                            let mv = old_msgs.map_values(|x: MqttMessage| x@);
                            if old_msgs.len() >= MAX_MESSAGES_PER_TOPIC {
                                assert(new_msgs.map_values(|x: MqttMessage| x@) =~= mv.drop_first().push(m));
                            } else {
                                assert(new_msgs.map_values(|x: MqttMessage| x@) =~= mv.push(m));
                            }
                            assert(sub_views(self.subscriptions@) =~= sub_views(old_subs).update(
                                i as int,
                                SubscriptionView {
                                    messages: push_capped(sub_views(old_subs)[i as int].messages, m),
                                    ..sub_views(old_subs)[i as int]
                                },
                            ));
                        }
                    }
                    i = i + 1;
                }
                proof {
                    assert(self@.subscriptions =~= target);
                }
            },
            MqttEvent::Error(err) => {
                self.connection_state = ConnectionState::Disconnected;
                let mut msg = String::new();
                msg.append("Error: ");
                msg.append(err.as_str());
                self.status_message = msg;
                
            },
        }
    }

    /// Asks the session task to disconnect.
    pub fn disconnect(&mut self)
        ensures
            final(self)@ == old(self)@.after_disconnect(),
    {
        self.enqueue(MqttCmd::Disconnect);
    }

    /// Types `c` into the focused field at its cursor.
    pub fn insert_char(&mut self, c: char)
        requires
            old(self)@.insert_char_ok(c),
        ensures
            final(self)@ == old(self)@.after_insert_char(c),
    {
        match self.focus {
            Focus::Host => insert_at_cursor(&mut self.connection_config.host, &mut self.host_cursor, c),
            Focus::Port => {
                if '0' <= c && c <= '9' {
                    let mut text = decimal_text(self.connection_config.port as u64);
                    proof {
                        lemma_decimal_digits(self.connection_config.port as nat);
                        lemma_insert_digit(text@, self.port_cursor as int, c);
                        lemma_insert_byte_len(text@, self.port_cursor as int, c);
                    }
                    string_insert(&mut text, self.port_cursor, c);
                    self.connection_config.port = match parse_u16(text.as_str()) {
                        Some(v) => v,
                        None => self.connection_config.port,
                    };
                    let len = text_len(text.as_str());
                    let next = self.port_cursor + 1;
                    self.port_cursor = if next < len { next } else { len };
                }
            },
            Focus::ClientId => insert_at_cursor(
                &mut self.connection_config.client_id,
                &mut self.client_id_cursor,
                c,
            ),
            Focus::Username => insert_at_cursor(
                &mut self.connection_config.username,
                &mut self.username_cursor,
                c,
            ),
            Focus::Password => insert_at_cursor(
                &mut self.connection_config.password,
                &mut self.password_cursor,
                c,
            ),
            Focus::SubscribeTopic => insert_at_cursor(
                &mut self.new_sub_topic,
                &mut self.new_sub_topic_cursor,
                c,
            ),
            Focus::PublishTopic => insert_at_cursor(
                &mut self.publish_form.topic,
                &mut self.publish_topic_cursor,
                c,
            ),
            Focus::PublishPayload => {
                let line = self.publish_form.cursor_line;
                let col = self.publish_form.cursor_col;
                let ghost old_lines = self.publish_form.payload_lines@;
                proof {
                    lemma_insert_byte_len(old_lines[line as int]@, col as int, c);
                }
                string_insert(&mut self.publish_form.payload_lines[line], col, c);
                let len = text_len(self.publish_form.payload_lines[line].as_str());
                self.publish_form.cursor_col = col + 1;
                proof {
                    assert(views_of(self.publish_form.payload_lines@) =~= views_of(old_lines).update(
                        line as int,
                        insert_at_byte(old_lines[line as int]@, col as int, c),
                    ));
                }
            },
            _ => {},
        }
    }

    /// Removes the character before the cursor of the focused field.
    pub fn backspace(&mut self)
        requires
            old(self)@.backspace_ok(),
        ensures
            final(self)@ == old(self)@.after_backspace(),
    {
        match self.focus {
            Focus::Host => backspace_at_cursor(&mut self.connection_config.host, &mut self.host_cursor),
            Focus::Port => {
                if self.port_cursor > 0 {
                    let mut text = decimal_text(self.connection_config.port as u64);
                    let len = text_len(text.as_str());
                    if len > 0 && self.port_cursor <= len {
                        proof {
                            lemma_decimal_digits(self.connection_config.port as nat);
                            crate::text::lemma_ascii_byte_len(text@);
                            lemma_remove_digit(text@, self.port_cursor - 1);
                        }
                        string_remove(&mut text, self.port_cursor - 1);
                        self.connection_config.port = match parse_u16(text.as_str()) {
                            Some(v) => v,
                            None => 0,
                        };
                        self.port_cursor = self.port_cursor - 1;
                    }
                }
            },
            Focus::ClientId => backspace_at_cursor(
                &mut self.connection_config.client_id,
                &mut self.client_id_cursor,
            ),
            Focus::Username => backspace_at_cursor(
                &mut self.connection_config.username,
                &mut self.username_cursor,
            ),
            Focus::Password => backspace_at_cursor(
                &mut self.connection_config.password,
                &mut self.password_cursor,
            ),
            Focus::SubscribeTopic => backspace_at_cursor(
                &mut self.new_sub_topic,
                &mut self.new_sub_topic_cursor,
            ),
            Focus::PublishTopic => backspace_at_cursor(
                &mut self.publish_form.topic,
                &mut self.publish_topic_cursor,
            ),
            Focus::PublishPayload => {
                if self.publish_form.cursor_col > 0 {
                    let line = self.publish_form.cursor_line;
                    let col = self.publish_form.cursor_col;
                    let ghost old_lines = self.publish_form.payload_lines@;
                    string_remove(&mut self.publish_form.payload_lines[line], col - 1);
                    self.publish_form.cursor_col = col - 1;
                    proof {
                        assert(views_of(self.publish_form.payload_lines@) =~= views_of(
                            old_lines,
                        ).update(
                            line as int,
                            remove_at_byte(old_lines[line as int]@, col - 1),
                        ));
                    }
                }
            },
            _ => {},
        }
    }

    /// Removes the character at the cursor of the focused field.
    pub fn delete(&mut self)
        requires
            old(self)@.delete_ok(),
        ensures
            final(self)@ == old(self)@.after_delete(),
    {
        match self.focus {
            Focus::Host => delete_at_cursor(&mut self.connection_config.host, self.host_cursor),
            Focus::Port => {
                let mut text = decimal_text(self.connection_config.port as u64);
                if self.port_cursor < text_len(text.as_str()) {
                    proof {
                        lemma_decimal_digits(self.connection_config.port as nat);
                        crate::text::lemma_ascii_byte_len(text@);
                        lemma_remove_digit(text@, self.port_cursor as int);
                    }
                    string_remove(&mut text, self.port_cursor);
                    self.connection_config.port = match parse_u16(text.as_str()) {
                        Some(v) => v,
                        None => 0,
                    };
                }
            },
            Focus::ClientId => delete_at_cursor(
                &mut self.connection_config.client_id,
                self.client_id_cursor,
            ),
            Focus::Username => delete_at_cursor(
                &mut self.connection_config.username,
                self.username_cursor,
            ),
            Focus::Password => delete_at_cursor(
                &mut self.connection_config.password,
                self.password_cursor,
            ),
            Focus::SubscribeTopic => delete_at_cursor(&mut self.new_sub_topic, self.new_sub_topic_cursor),
            Focus::PublishTopic => delete_at_cursor(&mut self.publish_form.topic, self.publish_topic_cursor),
            Focus::PublishPayload => {
                let line = self.publish_form.cursor_line;
                let col = self.publish_form.cursor_col;
                if col < text_len(self.publish_form.payload_lines[line].as_str()) {
                    let ghost old_lines = self.publish_form.payload_lines@;
                    string_remove(&mut self.publish_form.payload_lines[line], col);
                    proof {
                        assert(views_of(self.publish_form.payload_lines@) =~= views_of(
                            old_lines,
                        ).update(line as int, remove_at_byte(old_lines[line as int]@, col as int)));
                    }
                }
            },
            _ => {},
        }
    }

    /// Moves the cursor of the focused field one byte back.
    pub fn move_cursor_left(&mut self)
        ensures
            final(self)@ == old(self)@.after_cursor_left(),
    {
        match self.focus {
            Focus::Host => if self.host_cursor > 0 {
                self.host_cursor -= 1
            },
            Focus::Port => if self.port_cursor > 0 {
                self.port_cursor -= 1
            },
            Focus::ClientId => if self.client_id_cursor > 0 {
                self.client_id_cursor -= 1
            },
            Focus::Username => if self.username_cursor > 0 {
                self.username_cursor -= 1
            },
            Focus::Password => if self.password_cursor > 0 {
                self.password_cursor -= 1
            },
            Focus::SubscribeTopic => if self.new_sub_topic_cursor > 0 {
                self.new_sub_topic_cursor -= 1
            },
            Focus::PublishTopic => if self.publish_topic_cursor > 0 {
                self.publish_topic_cursor -= 1
            },
            Focus::PublishPayload => if self.publish_form.cursor_col > 0 {
                self.publish_form.cursor_col -= 1;
            },
            _ => {},
        }
    }

    /// Moves the cursor of the focused field one byte on, at most to the end.
    pub fn move_cursor_right(&mut self)
        requires
            old(self)@.cursor_right_ok(),
        ensures
            final(self)@ == old(self)@.after_cursor_right(),
    {
        match self.focus {
            Focus::Host => cursor_right(&self.connection_config.host, &mut self.host_cursor),
            Focus::Port => {
                let len = text_len(decimal_text(self.connection_config.port as u64).as_str());
                let next = self.port_cursor + 1;
                self.port_cursor = if next < len { next } else { len };
            },
            Focus::ClientId => cursor_right(&self.connection_config.client_id, &mut self.client_id_cursor),
            Focus::Username => cursor_right(&self.connection_config.username, &mut self.username_cursor),
            Focus::Password => cursor_right(&self.connection_config.password, &mut self.password_cursor),
            Focus::SubscribeTopic => cursor_right(&self.new_sub_topic, &mut self.new_sub_topic_cursor),
            Focus::PublishTopic => cursor_right(&self.publish_form.topic, &mut self.publish_topic_cursor),
            Focus::PublishPayload => {
                let max_col = text_len(
                    self.publish_form.payload_lines[self.publish_form.cursor_line].as_str(),
                );
                let next = self.publish_form.cursor_col + 1;
                self.publish_form.cursor_col = if next < max_col { next } else { max_col };
            },
            _ => {},
        }
    }

    /// Moves to the previous payload line, keeping the column within that line.
    pub fn move_cursor_up(&mut self)
        requires
            old(self)@.cursor_up_ok(),
        ensures
            final(self)@ == old(self)@.after_cursor_up(),
    {
        if self.focus == Focus::PublishPayload && self.publish_form.cursor_line > 0 {
            self.publish_form.cursor_line -= 1;
            let line_len = text_len(
                self.publish_form.payload_lines[self.publish_form.cursor_line].as_str(),
            );
            if line_len < self.publish_form.cursor_col {
                self.publish_form.cursor_col = line_len;
            }
        }
    }

    /// Moves to the next payload line, keeping the column within that line.
    pub fn move_cursor_down(&mut self)
        requires
            old(self)@.cursor_down_ok(),
        ensures
            final(self)@ == old(self)@.after_cursor_down(),
    {
        if self.focus == Focus::PublishPayload && self.publish_form.cursor_line + 1
            < self.publish_form.payload_lines.len() {
            self.publish_form.cursor_line += 1;
            let line_len = text_len(
                self.publish_form.payload_lines[self.publish_form.cursor_line].as_str(),
            );
            if line_len < self.publish_form.cursor_col {
                self.publish_form.cursor_col = line_len;
            }
        }
    }

    /// Splits the current payload line at the cursor.
    pub fn insert_newline(&mut self)
        requires
            old(self)@.newline_ok(),
        ensures
            final(self)@ == old(self)@.after_newline(),
    {
        if self.focus == Focus::PublishPayload {
            let line = self.publish_form.cursor_line;
            let count = self.publish_form.payload_lines.len();
            assert(line < count);
            let ghost old_lines = self.publish_form.payload_lines@;
            let rest = string_split_off(
                &mut self.publish_form.payload_lines[line],
                self.publish_form.cursor_col,
            );
            let ghost mid_lines = self.publish_form.payload_lines@;
            self.publish_form.payload_lines.insert(line + 1, rest);
            self.publish_form.cursor_line += 1;
            self.publish_form.cursor_col = 0;
            proof {
                let text = old_lines[line as int]@;
                let k = char_index(text, old(self).publish_form.cursor_col as int);
                assert(views_of(mid_lines) =~= views_of(old_lines).update(line as int, text.take(k)));
                assert(views_of(self.publish_form.payload_lines@) =~= views_of(old_lines).update(
                    line as int,
                    text.take(k),
                ).insert(line + 1, text.skip(k)));
            }
        }
    }

    /// Moves the cursor of the focused field to its start.
    pub fn move_to_home(&mut self)
        ensures
            final(self)@ == old(self)@.after_home(),
    {
        match self.focus {
            Focus::Host => self.host_cursor = 0,
            Focus::Port => self.port_cursor = 0,
            Focus::ClientId => self.client_id_cursor = 0,
            Focus::Username => self.username_cursor = 0,
            Focus::Password => self.password_cursor = 0,
            Focus::SubscribeTopic => self.new_sub_topic_cursor = 0,
            Focus::PublishTopic => self.publish_topic_cursor = 0,
            Focus::PublishPayload => self.publish_form.cursor_col = 0,
            _ => {},
        }
    }

    /// Moves the cursor of the focused field to its end.
    pub fn move_to_end(&mut self)
        requires
            old(self)@.end_ok(),
        ensures
            final(self)@ == old(self)@.after_end(),
    {
        match self.focus {
            Focus::Host => self.host_cursor = text_len(self.connection_config.host.as_str()),
            Focus::Port => self.port_cursor = text_len(
                decimal_text(self.connection_config.port as u64).as_str(),
            ),
            Focus::ClientId => self.client_id_cursor = text_len(
                self.connection_config.client_id.as_str(),
            ),
            Focus::Username => self.username_cursor = text_len(
                self.connection_config.username.as_str(),
            ),
            Focus::Password => self.password_cursor = text_len(
                self.connection_config.password.as_str(),
            ),
            Focus::SubscribeTopic => self.new_sub_topic_cursor = text_len(self.new_sub_topic.as_str()),
            Focus::PublishTopic => {
                self.publish_topic_cursor = text_len(self.publish_form.topic.as_str());
            },
            Focus::PublishPayload => {
                self.publish_form.cursor_col = text_len(
                    self.publish_form.payload_lines[self.publish_form.cursor_line].as_str(),
                );
            },
            _ => {},
        }
    }

    /// Advances the blink counter; the cursor shows or hides every 30 ticks.
    pub fn tick(&mut self)
        ensures
            final(self)@ == (AppView {
                blink_tick: old(self).blink_tick.wrapping_add(1),
                cursor_visible: if old(self).blink_tick.wrapping_add(1) % 30 == 0 {
                    !old(self).cursor_visible
                } else {
                    old(self).cursor_visible
                },
                ..old(self)@
            }),
    {
        self.blink_tick = self.blink_tick.wrapping_add(1);
        if self.blink_tick.is_multiple_of(30) {
            self.cursor_visible = !self.cursor_visible;
        }
    }

    /// Moves the focus to the next field.
    pub fn next_focus(&mut self)
        ensures
            final(self)@ == (AppView { focus: next_focus_of(old(self).focus), ..old(self)@ }),
    {
        self.focus = match self.focus {
            Focus::Host => Focus::Port,
            Focus::Port => Focus::ClientId,
            Focus::ClientId => Focus::Username,
            Focus::Username => Focus::Password,
            Focus::Password => Focus::SubscribeTopic,
            Focus::SubscribeTopic => Focus::SubscribeQos,
            Focus::SubscribeQos => Focus::PublishTopic,
            Focus::PublishTopic => Focus::PublishQos,
            Focus::PublishQos => Focus::PublishPayload,
            Focus::PublishPayload => Focus::Host,
        };
    }

    /// Moves the focus to the previous field.
    pub fn prev_focus(&mut self)
        ensures
            final(self)@ == (AppView { focus: prev_focus_of(old(self).focus), ..old(self)@ }),
    {
        self.focus = match self.focus {
            Focus::Host => Focus::PublishPayload,
            Focus::Port => Focus::Host,
            Focus::ClientId => Focus::Port,
            Focus::Username => Focus::ClientId,
            Focus::Password => Focus::Username,
            Focus::SubscribeTopic => Focus::Password,
            Focus::SubscribeQos => Focus::SubscribeTopic,
            Focus::PublishTopic => Focus::SubscribeQos,
            Focus::PublishQos => Focus::PublishTopic,
            Focus::PublishPayload => Focus::PublishQos,
        };
    }

    /// Steps the subscription QoS through 0, 1, 2.
    pub fn cycle_qos_sub(&mut self)
        requires
            old(self).new_sub_qos < 255,
        ensures
            final(self)@ == (AppView {
                new_sub_qos: ((old(self).new_sub_qos + 1) % 3) as u8,
                ..old(self)@
            }),
    {
        self.new_sub_qos = (self.new_sub_qos + 1) % 3;
    }

    /// Steps the publishing QoS through 0, 1, 2.
    pub fn cycle_qos_publish(&mut self)
        requires
            old(self).publish_qos_idx < usize::MAX,
        ensures
            final(self)@ == (AppView {
                publish_qos_idx: ((old(self).publish_qos_idx + 1) % 3) as usize,
                publish_form: PublishFormView {
                    qos: ((old(self).publish_qos_idx + 1) % 3) as u8,
                    ..old(self)@.publish_form
                },
                ..old(self)@
            }),
    {
        self.publish_qos_idx = (self.publish_qos_idx + 1) % 3;
        self.publish_form.qos = self.publish_qos_idx as u8;
    }
}

} // verus!
