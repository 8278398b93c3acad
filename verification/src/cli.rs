//! The command line: what it asks for.
use crate::config::Config;
use vstd::prelude::*;

verus! {

/// A subcommand.
pub enum Command {
    /// List all listening ports in a table.
    List,
    /// Check usage of a specific port.
    Check { port: u16 },
    /// Kill the process bound to a port (`SIGKILL` when `force`).
    Kill { port: u16, force: bool },
    /// Launch the interactive viewer.
    Ui,
    /// Update a setting (`banner`: on/off, `lang`: en/ja).
    Config { key: String, value: String },
}

/// The command line.
pub struct Cli {
    pub command: Command,
    /// Output as JSON.
    pub json: bool,
}

/// Whether the startup banner is printed: when the settings ask for it and
/// the output is not JSON.
pub fn shows_banner(cfg: &Config, json: bool) -> (b: bool)
    ensures
        b == (cfg.show_banner && !json),
{
    cfg.show_banner && !json
}

} // verus!
