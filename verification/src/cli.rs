use vstd::prelude::*;
use vstd::string::*;

use crate::docker::DockerHandlerArgs;
use crate::text::owned;

verus! {

/// The most detailed kind of log message that is shown.
#[derive(Debug, Clone, Copy, PartialEq, Eq, Structural)]
pub enum LogLevel {
    Off,
    Error,
    Warn,
    Info,
    Debug,
    Trace,
}

/// The arguments of the `info` command: none.
pub struct InfoArgs {}

/// A command of the tool.
pub enum Command {
    /// Show information about sealedinfra.
    Info(InfoArgs),
    /// Handle docker generation.
    Docker(Box<DockerHandlerArgs>),
}

/// The command line of the tool.
pub struct Cli {
    pub verbose: bool,
    pub root: Option<String>,
    pub log_level: LogLevel,
    pub settings: Option<String>,
    pub cmd: Command,
}

impl Default for Cli {
    /// The `info` command, quiet, at the `info` log level, with the settings read from
    /// `config/config.yaml` and no root.
    fn default() -> (c: Self)
        ensures
            c.settings matches Some(s) && s@ == "config/config.yaml"@,
            !c.verbose,
            c.root is None,
            c.log_level == LogLevel::Info,
            c.cmd is Info,
    {
        Cli {
            settings: Some(owned("config/config.yaml")),
            verbose: false,
            root: None,
            log_level: LogLevel::Info,
            cmd: Command::Info(InfoArgs {}),
        }
    }
}

} // verus!
