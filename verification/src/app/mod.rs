//! Application state and the rules that change it.

pub mod client_id;
pub mod model;
pub mod state;

pub use state::{App, ConnectionConfig, ConnectionState, Focus, MqttMessage, PublishForm, Subscription};
