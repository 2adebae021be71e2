//! The command-line surface, as plain values.
use vstd::prelude::*;

verus! {

/// The launcher's command line.
#[derive(Debug, Clone, PartialEq, Eq)]
pub struct Cli {
    /// The settings file path, where one was given.
    pub config: Option<String>,
    /// Whether to read the ssh config file.
    pub parse_ssh_config: bool,
    /// Whether to use chnroutes to direct traffic in China.
    pub enable_chnroutes: bool,
    /// Whether to use iplist bypassing.
    pub bypass_iplist: bool,
    /// The subcommand.
    pub subcommand: Option<SubCommand>,
}

/// The subcommands.
#[derive(Debug, Clone, PartialEq, Eq)]
pub enum SubCommand {
    /// Run openppp2 without the menu, with a `host:port` shorthand or the path
    /// of a run configuration.
    Use { config: String },
}

impl Cli {
    /// Whether the route override is brought up around the launch: asked on
    /// the command line, or on by default in the settings.
    pub fn chnroutes_wanted(&self, enabled_by_default: bool) -> (r: bool)
        ensures
            r == (self.enable_chnroutes || enabled_by_default),
    {
        self.enable_chnroutes || enabled_by_default
    }
}

} // verus!
