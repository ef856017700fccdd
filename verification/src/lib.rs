//! The decisions of a verification-code helper for macOS: reading new mail
//! and messages, what to do with a code, the monitor, the tray menu, the
//! floating window, the interface language and self-update.
pub mod config;
pub mod floating;
pub mod language;
pub mod mail;
pub mod messages;
pub mod monitor;
pub mod notification;
pub mod numbers;
pub mod text;
pub mod tray;
pub mod updater;
pub mod watch;
