//! The vocabulary of the service manager: what is asked of it, and what
//! comes back.

use vstd::prelude::*;
use crate::error::{AngelError, SystemError};
use crate::text::{contains, contains_str, join, join_from};
use crate::types::{Daemon, DaemonView, Domain};

verus! {

/// What one run of the service manager gave back.
#[derive(Debug)]
pub struct LaunchctlResult {
    pub output: String,
    pub exit_code: Option<i32>,
    pub stderr: String,
}

impl LaunchctlResult {
    /// A run succeeded when it ended with exit status zero.
    pub open spec fn succeeded(&self) -> bool {
        self.exit_code == Some(0i32)
    }

    pub fn success(&self) -> (b: bool)
        ensures
            b == self.succeeded(),
    {
        match self.exit_code {
            Some(code) => code == 0,
            None => false,
        }
    }
}

/// How the service manager addresses a service: the text of its domain, a
/// slash, and its name.
pub open spec fn target(d: DaemonView) -> Seq<char> {
    d.domain.text() + "/"@ + d.name
}

pub fn service_target(daemon: &Daemon) -> (s: String)
    ensures
        s@ == target(daemon@),
{
    let mut s = daemon.domain_str();
    s.append("/");
    s.append(daemon.name.as_str());
    s
}

/// What a report is asked about: a service of the registry, or whatever
/// the given text addresses (a domain, or a service in a domain).
#[derive(Debug, Clone, Copy)]
pub enum PrintTarget<'a> {
    ByService(&'a Daemon),
    ByName(&'a str),
}

impl<'a> PrintTarget<'a> {
    /// The address that is handed to the service manager.
    pub open spec fn address(self) -> Seq<char> {
        match self {
            PrintTarget::ByService(daemon) => target(daemon@),
            PrintTarget::ByName(name) => name@,
        }
    }

    pub fn target_str(&self) -> (s: String)
        ensures
            s@ == self.address(),
    {
        match self {
            PrintTarget::ByService(daemon) => service_target(daemon),
            PrintTarget::ByName(name) => String::from_str(name),
        }
    }
}

fn words2(a: String, b: String) -> (v: Vec<String>)
    ensures
        v.deep_view() == seq![a@, b@],
{
    let mut v: Vec<String> = Vec::new();
    v.push(a);
    v.push(b);
    v
}

fn words3(a: String, b: String, c: String) -> (v: Vec<String>)
    ensures
        v.deep_view() == seq![a@, b@, c@],
{
    let mut v: Vec<String> = Vec::new();
    v.push(a);
    v.push(b);
    v.push(c);
    v
}

/// The words that ask the service manager to load the definition of
/// `daemon` into its domain. A service without a source cannot be loaded.
pub fn bootstrap(daemon: &Daemon) -> (r: Result<Vec<String>, AngelError>)
    ensures
        match r {
            Ok(words) => daemon.source_path matches Some(path) && words.deep_view() == seq![
                "bootstrap"@,
                daemon.domain.text(),
                path@,
            ],
            Err(AngelError::System(SystemError::Launchctl(what))) => daemon.source_path is None
                && what@ == "Cannot bootstrap daemon without source path"@,
            Err(_) => false,
        },
{
    match &daemon.source_path {
        Some(path) => Ok(
            words3(String::from_str("bootstrap"), daemon.domain_str(), path.clone()),
        ),
        None => Err(
            AngelError::System(
                SystemError::Launchctl(
                    String::from_str("Cannot bootstrap daemon without source path"),
                ),
            ),
        ),
    }
}

/// What is said to the user after `bootstrap`, if anything: the service
/// manager answers a definition that is loaded into the user domain from
/// another kind of session with an input/output error.
pub open spec fn bootstrap_advice(d: DaemonView, output: Seq<char>) -> Option<Seq<char>> {
    if contains(output, "Input/output error"@) && d.domain is User {
        Some(
            "The user domain is for background sessions. If this isn't a background session, use the GUI domain."@,
        )
    } else {
        None
    }
}

pub fn bootstrap_hint(daemon: &Daemon, result: &LaunchctlResult) -> (r: Option<String>)
    ensures
        r.deep_view() == bootstrap_advice(daemon@, result.output@),
{
    if contains_str(result.output.as_str(), "Input/output error") {
        match daemon.domain {
            Domain::User(_) => Some(
                String::from_str(
                    "The user domain is for background sessions. If this isn't a background session, use the GUI domain.",
                ),
            ),
            _ => None,
        }
    } else {
        None
    }
}

/// The words that ask the service manager to unload `daemon`.
pub fn bootout(daemon: &Daemon) -> (words: Vec<String>)
    ensures
        words.deep_view() == seq!["bootout"@, target(daemon@)],
{
    words2(String::from_str("bootout"), service_target(daemon))
}

/// The words that ask the service manager to enable `daemon`.
pub fn enable(daemon: &Daemon) -> (words: Vec<String>)
    ensures
        words.deep_view() == seq!["enable"@, target(daemon@)],
{
    words2(String::from_str("enable"), service_target(daemon))
}

/// The words that ask the service manager to disable `daemon`.
pub fn disable(daemon: &Daemon) -> (words: Vec<String>)
    ensures
        words.deep_view() == seq!["disable"@, target(daemon@)],
{
    words2(String::from_str("disable"), service_target(daemon))
}

/// The words that ask the service manager to start `daemon`.
pub fn kickstart(daemon: &Daemon) -> (words: Vec<String>)
    ensures
        words.deep_view() == seq!["kickstart"@, target(daemon@)],
{
    words2(String::from_str("kickstart"), service_target(daemon))
}

/// The words that ask the service manager to start `daemon` after it has
/// killed the instance that runs.
pub fn kickstart_kill(daemon: &Daemon) -> (words: Vec<String>)
    ensures
        words.deep_view() == seq!["kickstart"@, "-k"@, target(daemon@)],
{
    words3(String::from_str("kickstart"), String::from_str("-k"), service_target(daemon))
}

/// The words that ask the service manager to send `signal` to `daemon`.
pub fn kill(daemon: &Daemon, signal: &str) -> (words: Vec<String>)
    ensures
        words.deep_view() == seq!["kill"@, signal@, target(daemon@)],
{
    words3(String::from_str("kill"), String::from_str(signal), service_target(daemon))
}

/// The words that ask the service manager for a report on `target`.
pub fn print(target: &PrintTarget) -> (words: Vec<String>)
    ensures
        words.deep_view() == seq!["print"@, target.address()],
{
    words2(String::from_str("print"), target.target_str())
}

/// A program and the arguments that it is run with.
#[derive(Debug)]
pub struct Invocation {
    pub program: String,
    pub args: Vec<String>,
}

/// `Invocation`, with its texts as sequences of characters.
pub struct InvocationView {
    pub program: Seq<char>,
    pub args: Seq<Seq<char>>,
}

impl View for Invocation {
    type V = InvocationView;

    open spec fn view(&self) -> InvocationView {
        InvocationView { program: self.program@, args: self.args.deep_view() }
    }
}

/// How the service manager is run with `words`: directly, and by way of
/// `sudo` for the superuser.
pub open spec fn invocation(words: Seq<Seq<char>>, is_root: bool) -> InvocationView {
    if is_root {
        InvocationView { program: "sudo"@, args: seq!["launchctl"@] + words }
    } else {
        InvocationView { program: "launchctl"@, args: words }
    }
}

pub fn launchctl_exec(args: Vec<String>, is_root: bool) -> (r: Invocation)
    ensures
        r@ == invocation(args.deep_view(), is_root),
{
    if is_root {
        let ghost words = args.deep_view();
        let mut args = args;
        args.insert(0, String::from_str("launchctl"));
        assert(args.deep_view() =~= seq!["launchctl"@] + words);
        Invocation { program: String::from_str("sudo"), args }
    } else {
        Invocation { program: String::from_str("launchctl"), args }
    }
}

impl Invocation {
    /// The invocation as one line, for the log.
    pub fn command_line(&self) -> (s: String)
        ensures
            s@ == self@.program + " "@ + join(self@.args, " "@),
    {
        let mut s = self.program.clone();
        s.append(" ");
        let joined = join_from(&self.args, 0, " ");
        assert(self.args.deep_view().skip(0) =~= self.args.deep_view());
        s.append(joined.as_str());
        s
    }
}

} // verus!
