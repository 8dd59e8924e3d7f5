use vstd::prelude::*;

use crate::app::client_id::{generate_client_id, is_generated_client_id};
use crate::app::state::{ConfigView, ConnectionConfig};

verus! {

/// A request from the user interface to the MQTT session task.
#[derive(Debug, Clone)]
pub enum MqttCmd {
    Connect(ConnectionConfig),
    Disconnect,
    Subscribe { topic: String, qos: u8 },
    Unsubscribe { topic: String },
    Publish { topic: String, qos: u8, retain: bool, payload: Vec<u8> },
}

/// What a command holds, with its strings and bytes as sequences.
#[verifier::ext_equal]
pub enum CmdView {
    Connect(ConfigView),
    Disconnect,
    Subscribe { topic: Seq<char>, qos: u8 },
    Unsubscribe { topic: Seq<char> },
    Publish { topic: Seq<char>, qos: u8, retain: bool, payload: Seq<u8> },
}

impl View for MqttCmd {
    type V = CmdView;

    open spec fn view(&self) -> CmdView {
        match self {
            MqttCmd::Connect(c) => CmdView::Connect(c@),
            MqttCmd::Disconnect => CmdView::Disconnect,
            MqttCmd::Subscribe { topic, qos } => CmdView::Subscribe { topic: topic@, qos: *qos },
            MqttCmd::Unsubscribe { topic } => CmdView::Unsubscribe { topic: topic@ },
            MqttCmd::Publish { topic, qos, retain, payload } => CmdView::Publish {
                topic: topic@,
                qos: *qos,
                retain: *retain,
                payload: payload@,
            },
        }
    }
}

/// A report from the MQTT session task to the user interface.
#[derive(Debug, Clone)]
pub enum MqttEvent {
    Connected,
    Disconnected,
    MessageReceived { topic: String, payload: Vec<u8>, retain: bool },
    Error(String),
}

#[verifier::ext_equal]
pub enum EventView {
    Connected,
    Disconnected,
    MessageReceived { topic: Seq<char>, payload: Seq<u8>, retain: bool },
    Error(Seq<char>),
}

impl View for MqttEvent {
    type V = EventView;

    open spec fn view(&self) -> EventView {
        match self {
            MqttEvent::Connected => EventView::Connected,
            MqttEvent::Disconnected => EventView::Disconnected,
            MqttEvent::MessageReceived { topic, payload, retain } => EventView::MessageReceived {
                topic: topic@,
                payload: payload@,
                retain: *retain,
            },
            MqttEvent::Error(e) => EventView::Error(e@),
        }
    }
}


/// The MQTT quality-of-service levels.
#[derive(Debug, Clone, Copy, PartialEq, Eq, Structural)]
pub enum QosLevel {
    AtMostOnce,
    AtLeastOnce,
    ExactlyOnce,
}

/// The level for a QoS number: 0 and 1 as such, anything larger as exactly-once.
pub open spec fn qos_level(qos: u8) -> QosLevel {
    if qos == 0 {
        QosLevel::AtMostOnce
    } else if qos == 1 {
        QosLevel::AtLeastOnce
    } else {
        QosLevel::ExactlyOnce
    }
}

pub fn u8_to_qos(qos: u8) -> (r: QosLevel)
    ensures
        r == qos_level(qos),
{
    match qos {
        0 => QosLevel::AtMostOnce,
        1 => QosLevel::AtLeastOnce,
        _ => QosLevel::ExactlyOnce,
    }
}

/// User name and password sent when connecting.
#[derive(Debug, Clone)]
pub struct Credentials {
    pub username: String,
    pub password: String,
}

/// What the MQTT client is built with.
#[derive(Debug, Clone)]
pub struct BrokerOptions {
    pub client_id: String,
    pub host: String,
    pub port: u16,
    pub keep_alive_secs: u64,
    pub clean_session: bool,
    pub credentials: Option<Credentials>,
    pub use_websockets: bool,
}

#[verifier::ext_equal]
pub struct BrokerOptionsView {
    pub client_id: Seq<char>,
    pub host: Seq<char>,
    pub port: u16,
    pub keep_alive_secs: u64,
    pub clean_session: bool,
    pub credentials: Option<(Seq<char>, Seq<char>)>,
    pub use_websockets: bool,
}

impl View for BrokerOptions {
    type V = BrokerOptionsView;

    open spec fn view(&self) -> BrokerOptionsView {
        BrokerOptionsView {
            client_id: self.client_id@,
            host: self.host@,
            port: self.port,
            keep_alive_secs: self.keep_alive_secs,
            clean_session: self.clean_session,
            credentials: match self.credentials {
                Some(c) => Some((c.username@, c.password@)),
                None => None,
            },
            use_websockets: self.use_websockets,
        }
    }
}

/// The port to connect to: the configured one, or when it is 0 the default of
/// the transport (8083 for WebSocket, 1883 for TCP).
pub open spec fn effective_port(config: ConfigView) -> u16 {
    if config.port == 0 {
        if config.use_websockets {
            8083
        } else {
            1883
        }
    } else {
        config.port
    }
}

/// The options for `config` with client identifier `client_id`.
pub open spec fn options_for(config: ConfigView, client_id: Seq<char>) -> BrokerOptionsView {
    BrokerOptionsView {
        client_id: client_id,
        host: config.host,
        port: effective_port(config),
        keep_alive_secs: config.keep_alive as u64,
        clean_session: config.clean_session,
        credentials: if config.username.len() > 0 {
            Some((config.username, config.password))
        } else {
            None
        },
        use_websockets: config.use_websockets,
    }
}

/// The client options for `config`, given the client identifier to use.
pub fn client_options_from(config: &ConnectionConfig, client_id: String) -> (r: BrokerOptions)
    ensures
        r@ == options_for(config@, client_id@),
{
    let port = if config.port == 0 {
        if config.use_websockets {
            8083
        } else {
            1883
        }
    } else {
        config.port
    };
    let credentials = if !config.username.as_str().is_empty() {
        Some(Credentials { username: config.username.clone(), password: config.password.clone() })
    } else {
        None
    };
    BrokerOptions {
        client_id: client_id,
        host: config.host.clone(),
        port: port,
        keep_alive_secs: config.keep_alive as u64,
        clean_session: config.clean_session,
        credentials: credentials,
        use_websockets: config.use_websockets,
    }
}

/// The client options for `config`: none without a host; the configured client
/// identifier, or a fresh one when it is empty.
pub fn build_client_options(config: &ConnectionConfig) -> (r: Option<BrokerOptions>)
    ensures
        r is None <==> config.host@.len() == 0,
        r matches Some(o) ==> config.client_id@.len() > 0 ==> o@ == options_for(
            config@,
            config.client_id@,
        ),
        r matches Some(o) ==> config.client_id@.len() == 0 ==> o@ == options_for(config@, o@.client_id)
            && is_generated_client_id(o@.client_id),
{
    if config.host.as_str().is_empty() {
        return None;
    }
    let client_id = if config.client_id.as_str().is_empty() {
        generate_client_id()
    } else {
        config.client_id.clone()
    };
    Some(client_options_from(config, client_id))
}

/// The options used when a configuration gives none, with client identifier
/// `client_id`: `localhost`, port 1883, keep-alive 60 s, clean session, no
/// credentials, TCP.
pub open spec fn fallback_options(client_id: Seq<char>) -> BrokerOptionsView {
    BrokerOptionsView {
        client_id: client_id,
        host: "localhost"@,
        port: 1883,
        keep_alive_secs: 60,
        clean_session: true,
        credentials: None,
        use_websockets: false,
    }
}

/// The fallback options with a freshly generated client identifier.
pub open spec fn is_default_options(o: BrokerOptionsView) -> bool {
    is_generated_client_id(o.client_id) && o == fallback_options(o.client_id)
}

pub fn fallback_options_with_id(client_id: String) -> (r: BrokerOptions)
    ensures
        r@ == fallback_options(client_id@),
{
    let mut host = String::new();
    host.append("localhost");
    BrokerOptions {
        client_id: client_id,
        host: host,
        port: 1883,
        keep_alive_secs: 60,
        clean_session: true,
        credentials: None,
        use_websockets: false,
    }
}

/// The fallback options with a fresh client identifier.
pub fn default_options() -> (r: BrokerOptions)
    ensures
        is_default_options(r@),
{
    fallback_options_with_id(generate_client_id())
}

/// What the session task does for one command.
#[derive(Debug)]
pub enum SessionStep {
    /// Build a client with these options and start polling it, after dropping
    /// the running one when `replace_running` holds.
    StartClient { options: BrokerOptions, replace_running: bool },
    /// Drop the client and send these reports to the interface.
    StopClient { reports: Vec<MqttEvent> },
    Subscribe { topic: String, qos: QosLevel },
    Unsubscribe { topic: String },
    Publish { topic: String, qos: QosLevel, retain: bool, payload: Vec<u8> },
    /// Nothing to do: there is no client.
    Ignore,
}

/// What the session task does for `cmd` while it has a client or not.
pub fn plan_command(cmd: MqttCmd, has_client: bool) -> (r: SessionStep)
    ensures
        match cmd@ {
            CmdView::Connect(config) => r matches SessionStep::StartClient { options, replace_running }
                && replace_running == has_client && (config.host.len() > 0 && config.client_id.len()
                > 0 ==> options@ == options_for(config, config.client_id)) && (config.host.len() > 0
                && config.client_id.len() == 0 ==> options@ == options_for(config, options@.client_id)
                && is_generated_client_id(options@.client_id)) && (config.host.len() == 0
                ==> is_default_options(options@)),
            CmdView::Disconnect => r matches SessionStep::StopClient { reports } && reports@.len()
                == 1 && reports@[0]@ == EventView::Disconnected,
            CmdView::Subscribe { topic, qos } => if has_client {
                r matches SessionStep::Subscribe { topic: t, qos: q } && t@ == topic && q
                    == qos_level(qos)
            } else {
                r is Ignore
            },
            CmdView::Unsubscribe { topic } => if has_client {
                r matches SessionStep::Unsubscribe { topic: t } && t@ == topic
            } else {
                r is Ignore
            },
            CmdView::Publish { topic, qos, retain, payload } => if has_client {
                r matches SessionStep::Publish { topic: t, qos: q, retain: rt, payload: p } && t@
                    == topic && q == qos_level(qos) && rt == retain && p@ == payload
            } else {
                r is Ignore
            },
        },
{
    match cmd {
        MqttCmd::Connect(config) => {
            let options = match build_client_options(&config) {
                Some(o) => o,
                None => default_options(),
            };
            SessionStep::StartClient { options: options, replace_running: has_client }
        },
        MqttCmd::Disconnect => {
            let mut reports: Vec<MqttEvent> = Vec::new();
            reports.push(MqttEvent::Disconnected);
            SessionStep::StopClient { reports: reports }
        },
        MqttCmd::Subscribe { topic, qos } => if has_client {
            SessionStep::Subscribe { topic: topic, qos: u8_to_qos(qos) }
        } else {
            SessionStep::Ignore
        },
        MqttCmd::Unsubscribe { topic } => if has_client {
            SessionStep::Unsubscribe { topic: topic }
        } else {
            SessionStep::Ignore
        },
        MqttCmd::Publish { topic, qos, retain, payload } => if has_client {
            SessionStep::Publish { topic: topic, qos: u8_to_qos(qos), retain: retain, payload: payload }
        } else {
            SessionStep::Ignore
        },
    }
}

/// The request of the session task that failed.
#[derive(Debug, Clone, Copy, PartialEq, Eq, Structural)]
pub enum RequestKind {
    Subscribe,
    Unsubscribe,
    Publish,
}

/// The text reported when a request about `topic` failed with `err`.
pub open spec fn failure_text(kind: RequestKind, topic: Seq<char>, err: Seq<char>) -> Seq<char> {
    let head = match kind {
        RequestKind::Subscribe => "Subscribe failed for '"@,
        RequestKind::Unsubscribe => "Unsubscribe failed for '"@,
        RequestKind::Publish => "Publish failed to '"@,
    };
    head + topic + "': "@ + err
}

/// The error event for a failed request.
pub fn failure_event(kind: RequestKind, topic: &str, err: &str) -> (e: MqttEvent)
    ensures
        e@ == EventView::Error(failure_text(kind, topic@, err@)),
{
    let mut msg = String::new();
    msg.append(
        match kind {
            RequestKind::Subscribe => "Subscribe failed for '",
            RequestKind::Unsubscribe => "Unsubscribe failed for '",
            RequestKind::Publish => "Publish failed to '",
        },
    );
    msg.append(topic);
    msg.append("': ");
    msg.append(err);
    proof {
        assert(msg@ =~= failure_text(kind, topic@, err@));
    }
    MqttEvent::Error(msg)
}

/// One result of polling the network event loop.
#[derive(Debug)]
pub enum NetPoll {
    /// A PUBLISH packet arrived.
    Publish { topic: String, payload: Vec<u8>, retain: bool },
    /// The broker accepted the connection.
    ConnAck,
    /// Any other packet or outgoing event.
    Other,
    /// Polling failed with this error text.
    Failed(String),
}

/// What the polling loop reports for one poll result, and whether it stops.
#[derive(Debug)]
pub struct PollOutcome {
    pub events: Vec<MqttEvent>,
    pub stop: bool,
}

/// A received publish becomes a message event, a connection acknowledgement a
/// `Connected` event; a failure is reported as an error, the loop stops and the
/// session is reported disconnected; anything else is ignored.
pub fn translate_poll(p: NetPoll) -> (r: PollOutcome)
    ensures
        match p {
            NetPoll::Publish { topic, payload, retain } => !r.stop && r.events@.len() == 1
                && r.events@[0]@ == EventView::MessageReceived {
                topic: topic@,
                payload: payload@,
                retain: retain,
            },
            NetPoll::ConnAck => !r.stop && r.events@.len() == 1 && r.events@[0]@
                == EventView::Connected,
            NetPoll::Other => !r.stop && r.events@.len() == 0,
            NetPoll::Failed(e) => r.stop && r.events@.len() == 2 && r.events@[0]@ == EventView::Error(
                e@,
            ) && r.events@[1]@ == EventView::Disconnected,
        },
{
    let mut events: Vec<MqttEvent> = Vec::new();
    match p {
        NetPoll::Publish { topic, payload, retain } => {
            events.push(MqttEvent::MessageReceived { topic: topic, payload: payload, retain: retain });
            PollOutcome { events: events, stop: false }
        },
        NetPoll::ConnAck => {
            events.push(MqttEvent::Connected);
            PollOutcome { events: events, stop: false }
        },
        NetPoll::Other => PollOutcome { events: events, stop: false },
        NetPoll::Failed(e) => {
            events.push(MqttEvent::Error(e));
            events.push(MqttEvent::Disconnected);
            PollOutcome { events: events, stop: true }
        },
    }
}

} // verus!
