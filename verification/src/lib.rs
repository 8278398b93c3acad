pub mod text;
pub mod i18n;
pub mod config;
pub mod cli;
pub mod port;
pub mod display;
pub mod platform;
pub mod tui;
