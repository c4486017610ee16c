//! The commands that ask the service manager to act on one service: the
//! words that are sent, and what is told the user afterwards.

use vstd::prelude::*;
use crate::cli::{StartArgs, StopArgs};
use crate::launchctl::{kickstart, kickstart_kill, kill, target, LaunchctlResult};
use crate::types::{Daemon, DaemonView};

verus! {

/// What was asked of the service manager.
#[derive(Debug, Clone, Copy, PartialEq, Eq, Structural)]
pub enum Action {
    Start,
    Stop,
    Restart,
    Bootstrap,
    Bootout,
    Install,
}

impl Action {
    /// The word for what was done.
    pub open spec fn done(self) -> Seq<char> {
        match self {
            Action::Start => "started"@,
            Action::Stop => "stopped"@,
            Action::Restart => "restarted"@,
            Action::Bootstrap => "bootstrapped"@,
            Action::Bootout => "booted out"@,
            Action::Install => "installed"@,
        }
    }

    /// The words for what was tried.
    pub open spec fn tried(self) -> Seq<char> {
        match self {
            Action::Start => "start"@,
            Action::Stop => "stop"@,
            Action::Restart => "restart"@,
            Action::Bootstrap => "bootstrap"@,
            Action::Bootout => "boot out"@,
            Action::Install => "install"@,
        }
    }

    fn done_word(&self) -> (s: &'static str)
        ensures
            s@ == self.done(),
    {
        match self {
            Action::Start => "started",
            Action::Stop => "stopped",
            Action::Restart => "restarted",
            Action::Bootstrap => "bootstrapped",
            Action::Bootout => "booted out",
            Action::Install => "installed",
        }
    }

    fn tried_word(&self) -> (s: &'static str)
        ensures
            s@ == self.tried(),
    {
        match self {
            Action::Start => "start",
            Action::Stop => "stop",
            Action::Restart => "restart",
            Action::Bootstrap => "bootstrap",
            Action::Bootout => "boot out",
            Action::Install => "install",
        }
    }
}

/// What the user is told after the service manager has run: what was done
/// to the service, or what failed and what the service manager said of
/// it.
pub open spec fn outcome_text(action: Action, name: Seq<char>, result: LaunchctlResult) -> Seq<
    char,
> {
    if result.succeeded() {
        action.done() + " "@ + name
    } else {
        "failed to "@ + action.tried() + " "@ + name + ": "@ + result.stderr@
    }
}

/// The message for the outcome of `action` on `daemon`; with it, whether
/// the action succeeded.
pub fn outcome(action: Action, daemon: &Daemon, result: &LaunchctlResult) -> (r: (bool, String))
    ensures
        r.0 == result.succeeded(),
        r.1@ == outcome_text(action, daemon@.name, *result),
{
    if result.success() {
        let mut s = String::from_str(action.done_word());
        s.append(" ");
        s.append(daemon.name.as_str());
        (true, s)
    } else {
        let mut s = String::from_str("failed to ");
        s.append(action.tried_word());
        s.append(" ");
        s.append(daemon.name.as_str());
        s.append(": ");
        s.append(result.stderr.as_str());
        (false, s)
    }
}

/// The message for a report on a service that could not be had.
pub fn status_failure(daemon: &Daemon, result: &LaunchctlResult) -> (r: Option<String>)
    ensures
        match r {
            Some(s) => !result.succeeded() && s@ == "failed to get status for "@ + daemon@.name
                + ": "@ + result.stderr@,
            None => result.succeeded(),
        },
{
    if result.success() {
        None
    } else {
        let mut s = String::from_str("failed to get status for ");
        s.append(daemon.name.as_str());
        s.append(": ");
        s.append(result.stderr.as_str());
        Some(s)
    }
}

/// The words that start `daemon`: an instance that runs is killed first
/// where the user asked for that.
pub fn start_words(daemon: &Daemon, args: &StartArgs) -> (words: Vec<String>)
    ensures
        words.deep_view() == (if args.kill {
            seq!["kickstart"@, "-k"@, target(daemon@)]
        } else {
            seq!["kickstart"@, target(daemon@)]
        }),
{
    if args.kill {
        kickstart_kill(daemon)
    } else {
        kickstart(daemon)
    }
}

/// The words that stop `daemon`: it is sent the signal that the user
/// named.
pub fn stop_words(daemon: &Daemon, args: &StopArgs) -> (words: Vec<String>)
    ensures
        words.deep_view() == seq!["kill"@, args.signal.text(), target(daemon@)],
{
    kill(daemon, args.signal.to_string().as_str())
}

} // verus!
