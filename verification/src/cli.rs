//! What the user asks for on the command line, after it was read.

use vstd::prelude::*;
use crate::commands::install::InstallStrategy;
use crate::commands::list::SortBy;

verus! {

/// A command line that was read.
#[derive(Debug, Clone)]
pub struct Cli {
    pub command: Commands,
}

/// A service, named by the user.
#[derive(Debug, Clone)]
pub struct NameArgs {
    pub name: String,
    /// Whether `name` is the whole name of the service.
    pub exact: bool,
    pub verbose: bool,
}

/// What to list.
#[derive(Debug, Clone)]
pub struct ListArgs {
    pub pattern: Option<String>,
    pub exact: bool,
    /// Whether the vendor's services are shown.
    pub show_apple: bool,
    /// Whether services without a definition file are shown.
    pub show_dynamic: bool,
    /// Whether services that do not run are shown.
    pub show_idle: bool,
    pub sort_by: SortBy,
}

/// What to install, and how.
#[derive(Debug, Clone)]
pub struct InstallArgs {
    pub path: String,
    pub strategy: InstallStrategy,
}

/// A signal that a service can be sent.
#[derive(Debug, Clone, Copy, PartialEq, Eq, Structural)]
#[allow(non_camel_case_types)]
pub enum Signal {
    sigterm,
    sigkill,
    sighup,
    sigint,
}

impl Signal {
    /// The name of the signal, as the service manager takes it.
    pub open spec fn text(self) -> Seq<char> {
        match self {
            Signal::sigterm => "sigterm"@,
            Signal::sigkill => "sigkill"@,
            Signal::sighup => "sighup"@,
            Signal::sigint => "sigint"@,
        }
    }

    pub fn to_string(&self) -> (s: String)
        ensures
            s@ == self.text(),
    {
        match self {
            Signal::sigterm => String::from_str("sigterm"),
            Signal::sigkill => String::from_str("sigkill"),
            Signal::sighup => String::from_str("sighup"),
            Signal::sigint => String::from_str("sigint"),
        }
    }
}

/// The service to start.
#[derive(Debug, Clone)]
pub struct StartArgs {
    pub name: String,
    pub exact: bool,
    pub verbose: bool,
    /// Whether an instance that runs is killed first.
    pub kill: bool,
}

/// The service to stop.
#[derive(Debug, Clone)]
pub struct StopArgs {
    pub name: String,
    pub exact: bool,
    pub signal: Signal,
    pub force: bool,
}

/// What the user asks for.
#[derive(Debug, Clone)]
pub enum Commands {
    Install(InstallArgs),
    Uninstall(NameArgs),
    Start(StartArgs),
    Stop(StopArgs),
    Restart(NameArgs),
    Bootstrap(NameArgs),
    Bootout(NameArgs),
    Status(NameArgs),
    List(ListArgs),
    Plist(NameArgs),
    Enable(NameArgs),
    Disable(NameArgs),
    Version,
}

impl Commands {
    /// Whether the command asks for verbose output. Only the commands
    /// that name one service can; `stop` cannot.
    pub open spec fn wants_verbose(self) -> bool {
        match self {
            Commands::Start(args) => args.verbose,
            Commands::Restart(args) => args.verbose,
            Commands::Status(args) => args.verbose,
            Commands::Plist(args) => args.verbose,
            Commands::Uninstall(args) => args.verbose,
            Commands::Bootstrap(args) => args.verbose,
            Commands::Bootout(args) => args.verbose,
            Commands::Enable(args) => args.verbose,
            Commands::Disable(args) => args.verbose,
            _ => false,
        }
    }

    pub fn verbose(&self) -> (b: bool)
        ensures
            b == self.wants_verbose(),
    {
        match self {
            Commands::Start(args) => args.verbose,
            Commands::Restart(args) => args.verbose,
            Commands::Status(args) => args.verbose,
            Commands::Plist(args) => args.verbose,
            Commands::Uninstall(args) => args.verbose,
            Commands::Bootstrap(args) => args.verbose,
            Commands::Bootout(args) => args.verbose,
            Commands::Enable(args) => args.verbose,
            Commands::Disable(args) => args.verbose,
            _ => false,
        }
    }
}

} // verus!
