//! Commands to and events from the MQTT session, the decisions of the session task,
//! and topic filters.

pub mod client;
pub mod topic;

pub use client::{MqttCmd, MqttEvent};
