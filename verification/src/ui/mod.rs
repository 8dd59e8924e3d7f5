//! The text that the user interface shows, computed from the application state.
//! Drawing it on the terminal is left to the program around the library.

pub mod connection;
pub mod help;
pub mod publish;
pub mod subscriptions;
pub mod top_bar;

pub use connection::build_cursor_text;
