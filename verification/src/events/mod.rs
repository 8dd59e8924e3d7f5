//! Key bindings and the effect of each user action on the application state.

pub mod handler;

pub use handler::{handle_action, key_to_action, Action, KeyCodeInput, KeyInput};
