//! Verified core of an MQTT 3.1.1 terminal client: the application state and
//! its editing rules, the key bindings, the decisions of the MQTT session task
//! and the text shown by the user interface.

pub mod app;
pub mod events;
pub mod laws;
pub mod mqtt;
pub mod text;
pub mod ui;
