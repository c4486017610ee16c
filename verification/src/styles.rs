//! How services are shown: the text for a service's file, and the
//! colours of states and domains.

use vstd::prelude::*;
use crate::path::{compress_path, compressed};
use crate::text::str_eq;
use crate::types::{Daemon, DaemonView, Domain};

verus! {

/// A colour of the terminal.
#[derive(Debug, Clone, Copy, PartialEq, Eq, Structural)]
pub enum Shade {
    Green,
    White,
    Red,
    Yellow,
    Blue,
    Magenta,
    Cyan,
}

/// The colour of the dot that stands for a state. A state that has no
/// colour of its own gets `fallback`, and magenta where there is none.
pub open spec fn state_shade(status: Seq<char>, fallback: Option<Shade>) -> Shade {
    if status == "running"@ {
        Shade::Green
    } else if status == "not running"@ {
        Shade::White
    } else if status == "stopped"@ {
        Shade::Red
    } else if status == "launched"@ {
        Shade::Yellow
    } else if status == "exited"@ {
        Shade::Blue
    } else {
        match fallback {
            Some(shade) => shade,
            None => Shade::Magenta,
        }
    }
}

pub fn status_shade(status: &str, fallback: Option<Shade>) -> (shade: Shade)
    ensures
        shade == state_shade(status@, fallback),
{
    if str_eq(status, "running") {
        Shade::Green
    } else if str_eq(status, "not running") {
        Shade::White
    } else if str_eq(status, "stopped") {
        Shade::Red
    } else if str_eq(status, "launched") {
        Shade::Yellow
    } else if str_eq(status, "exited") {
        Shade::Blue
    } else {
        match fallback {
            Some(shade) => shade,
            None => Shade::Magenta,
        }
    }
}

/// The colour in which a domain is shown; the unknown domain has none.
pub fn domain_shade(domain: &Domain) -> (shade: Option<Shade>)
    ensures
        shade == (match *domain {
            Domain::System => Some(Shade::Magenta),
            Domain::User(_) => Some(Shade::Green),
            Domain::Gui(_) => Some(Shade::Cyan),
            Domain::Unknown => None,
        }),
{
    match domain {
        Domain::System => Some(Shade::Magenta),
        Domain::User(_) => Some(Shade::Green),
        Domain::Gui(_) => Some(Shade::Cyan),
        Domain::Unknown => None,
    }
}

/// The text that stands for the file of a service. `link` is `None` for
/// a file that is no symbolic link, and else what the link points to.
/// A service without a file gets a dash; a link is set off by two spaces
/// and, in the long form, followed by what it points to.
pub open spec fn shown_path(
    d: DaemonView,
    long: bool,
    link: Option<Seq<char>>,
    home: Option<Seq<char>>,
) -> Seq<char> {
    match d.source_path {
        Some(path) => match link {
            Some(to) => if long {
                "  "@ + compressed(path, home) + " → "@ + compressed(to, home)
            } else {
                "  "@ + compressed(path, home)
            },
            None => compressed(path, home),
        },
        None => "-"@,
    }
}

pub fn display_path(daemon: &Daemon, long: bool, link: Option<&str>, home: Option<&str>) -> (s:
    String)
    ensures
        s@ == shown_path(
            daemon@,
            long,
            match link {
                Some(to) => Some(to@),
                None => None,
            },
            match home {
                Some(h) => Some(h@),
                None => None,
            },
        ),
{
    match &daemon.source_path {
        Some(path) => match link {
            Some(to) => {
                let mut s = String::from_str("  ");
                s.append(compress_path(path.as_str(), home).as_str());
                if long {
                    s.append(" → ");
                    s.append(compress_path(to, home).as_str());
                }
                s
            },
            None => compress_path(path.as_str(), home),
        },
        None => String::from_str("-"),
    }
}

} // verus!
