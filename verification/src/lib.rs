//! Verified core of the `openhuman chat` terminal front end: the key-handling
//! state machine of the chat TUI, the text it renders, and the decisions and
//! messages of the interactive session.
pub mod chat_cli;
pub mod text;
pub mod transport;
pub mod tui;
