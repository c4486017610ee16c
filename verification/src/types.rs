//! The entities that every part of the inventory works on.

use std::collections::HashMap;
use vstd::prelude::*;
use crate::path::{file_stem, file_stem_of};
use crate::text::{decimal, decimal_string, str_eq};

verus! {

/// The execution context a service runs under.
#[derive(Debug, Clone, Copy, PartialEq, Eq, Hash, Structural)]
pub enum Domain {
    System,
    User(u32),
    Gui(u32),
    Unknown,
}

/// The domain that a session-type hint of a definition asks for, if the
/// hint is one of the known ones.
pub open spec fn session_domain(hint: Seq<char>, uid: u32) -> Option<Domain> {
    if hint == "Aqua"@ {
        Some(Domain::Gui(uid))
    } else if hint == "Background"@ || hint == "LoginWindow"@ {
        Some(Domain::User(uid))
    } else if hint == "System"@ {
        Some(Domain::System)
    } else {
        None
    }
}

impl Domain {
    /// The domain of a definition: what its session-type hint asks for,
    /// and `default` where it has no hint or an unknown one.
    pub open spec fn spec_from_plist(plist: Plist, uid: u32, default: Domain) -> Domain {
        match plist.limit_load_to_session_type {
            Some(hint) => match session_domain(hint@, uid) {
                Some(d) => d,
                None => default,
            },
            None => default,
        }
    }

    pub fn from_plist(plist: &Plist, uid: u32, default: Domain) -> (d: Domain)
        ensures
            d == Domain::spec_from_plist(*plist, uid, default),
    {
        match &plist.limit_load_to_session_type {
            Some(hint) => {
                let hint = hint.as_str();
                if str_eq(hint, "Aqua") {
                    Domain::Gui(uid)
                } else if str_eq(hint, "Background") || str_eq(hint, "LoginWindow") {
                    Domain::User(uid)
                } else if str_eq(hint, "System") {
                    Domain::System
                } else {
                    default
                }
            },
            None => default,
        }
    }

    /// The domain with `uid` as its owner, where it has an owner.
    pub open spec fn spec_with_owner(self, uid: u32) -> Domain {
        match self {
            Domain::System => Domain::System,
            Domain::User(_) => Domain::User(uid),
            Domain::Gui(_) => Domain::Gui(uid),
            Domain::Unknown => Domain::Unknown,
        }
    }

    pub fn with_owner(&self, uid: u32) -> (d: Domain)
        ensures
            d == self.spec_with_owner(uid),
    {
        match self {
            Domain::System => Domain::System,
            Domain::User(_) => Domain::User(uid),
            Domain::Gui(_) => Domain::Gui(uid),
            Domain::Unknown => Domain::Unknown,
        }
    }

    /// The canonical text of the domain, as the service manager addresses
    /// it.
    pub open spec fn text(self) -> Seq<char> {
        match self {
            Domain::System => "system"@,
            Domain::User(uid) => "user/"@ + decimal(uid as nat),
            Domain::Gui(uid) => "gui/"@ + decimal(uid as nat),
            Domain::Unknown => "Unknown"@,
        }
    }

    pub fn to_string(&self) -> (s: String)
        ensures
            s@ == self.text(),
    {
        match self {
            Domain::System => String::from_str("system"),
            Domain::User(uid) => {
                let mut s = String::from_str("user/");
                s.append(decimal_string(*uid).as_str());
                s
            },
            Domain::Gui(uid) => {
                let mut s = String::from_str("gui/");
                s.append(decimal_string(*uid).as_str());
                s
            },
            Domain::Unknown => String::from_str("Unknown"),
        }
    }
}

/// Whom a service is there for, judged by where its definition was found.
#[derive(Debug, Clone, Copy, PartialEq, Eq, Structural)]
pub enum ForWhom {
    User,
    Apple,
    ThirdParty,
    Angel,
}

/// The decoded contents of a definition file. Any field may be absent.
#[derive(Debug, Clone)]
pub struct Plist {
    pub label: Option<String>,
    pub program: Option<String>,
    pub program_arguments: Option<Vec<String>>,
    pub run_at_load: Option<bool>,
    pub keep_alive: Option<bool>,
    pub working_directory: Option<String>,
    pub standard_out_path: Option<String>,
    pub standard_error_path: Option<String>,
    pub environment_variables: Option<HashMap<String, String>>,
    pub start_interval: Option<i32>,
    pub start_on_mount: Option<bool>,
    pub throttle_interval: Option<i32>,
    pub process_type: Option<String>,
    pub session_create: Option<bool>,
    pub launch_only_once: Option<bool>,
    pub limit_load_to_session_type: Option<String>,
}

/// One service of the inventory.
#[derive(Debug, Clone)]
pub struct Daemon {
    pub name: String,
    pub source_path: Option<String>,
    pub domain: Domain,
    pub for_use_by: ForWhom,
    pub plist: Option<Plist>,
    pub pid: Option<u32>,
    pub last_exit_code: Option<String>,
}

/// What a `Daemon` holds, with its texts as sequences of characters.
pub struct DaemonView {
    pub name: Seq<char>,
    pub source_path: Option<Seq<char>>,
    pub domain: Domain,
    pub for_use_by: ForWhom,
    pub plist: Option<Plist>,
    pub pid: Option<u32>,
    pub last_exit_code: Option<Seq<char>>,
}

impl View for Daemon {
    type V = DaemonView;

    open spec fn view(&self) -> DaemonView {
        DaemonView {
            name: self.name@,
            source_path: self.source_path.deep_view(),
            domain: self.domain,
            for_use_by: self.for_use_by,
            plist: self.plist,
            pid: self.pid,
            last_exit_code: self.last_exit_code.deep_view(),
        }
    }
}

impl DeepView for Daemon {
    type V = DaemonView;

    open spec fn deep_view(&self) -> DaemonView {
        self@
    }
}

/// The name of the service that a definition describes: its label, else
/// the stem of the file it was read from, else `unknown`.
pub open spec fn definition_name(label: Option<Seq<char>>, path: Option<Seq<char>>) -> Seq<char> {
    match label {
        Some(l) => l,
        None => match path {
            Some(p) => match file_stem(p) {
                Some(stem) => stem,
                None => "unknown"@,
            },
            None => "unknown"@,
        },
    }
}

impl Daemon {
    pub fn new(
        name: String,
        source_path: Option<String>,
        domain: Domain,
        for_use_by: ForWhom,
        plist: Option<Plist>,
        pid: Option<u32>,
        last_exit_code: Option<String>,
    ) -> (d: Self)
        ensures
            d == (Daemon { name, source_path, domain, for_use_by, plist, pid, last_exit_code }),
    {
        Self { name, source_path, domain, for_use_by, plist, pid, last_exit_code }
    }

    /// The service that the definition `plist`, read from `path`,
    /// describes. It has no runtime state yet.
    pub open spec fn spec_from_plist(
        plist: Plist,
        path: Option<Seq<char>>,
        default_domain: Domain,
        for_use_by: ForWhom,
        uid: u32,
    ) -> DaemonView {
        DaemonView {
            name: definition_name(plist.label.deep_view(), path),
            source_path: path,
            domain: Domain::spec_from_plist(plist, uid, default_domain),
            for_use_by,
            plist: Some(plist),
            pid: None,
            last_exit_code: None,
        }
    }

    pub fn from_plist(
        plist: Plist,
        path: Option<String>,
        default_domain: Domain,
        for_use_by: ForWhom,
        uid: u32,
    ) -> (d: Self)
        ensures
            d@ == Daemon::spec_from_plist(
                plist,
                path.deep_view(),
                default_domain,
                for_use_by,
                uid,
            ),
    {
        let name = match &plist.label {
            Some(label) => label.clone(),
            None => {
                let stem = match &path {
                    Some(p) => file_stem_of(p.as_str()),
                    None => None,
                };
                match stem {
                    Some(s) => s,
                    None => String::from_str("unknown"),
                }
            },
        };
        let domain = Domain::from_plist(&plist, uid, default_domain);
        Self {
            name,
            source_path: path,
            domain,
            for_use_by,
            plist: Some(plist),
            pid: None,
            last_exit_code: None,
        }
    }

    pub fn domain_str(&self) -> (s: String)
        ensures
            s@ == self.domain.text(),
    {
        self.domain.to_string()
    }
}

/// A definition whose session type is `Aqua` belongs to the graphical
/// session of the owner, whatever the domain of the directory in which
/// it was found.
pub proof fn lemma_aqua_is_gui(plist: Plist, uid: u32, default: Domain)
    requires
        plist.limit_load_to_session_type matches Some(hint) && hint@ == "Aqua"@,
    ensures
        Domain::spec_from_plist(plist, uid, default) == Domain::Gui(uid),
{
}

/// The session type decides the domain of a service at the moment at
/// which the service is made from its definition.
pub proof fn lemma_aqua_service_is_gui(
    plist: Plist,
    path: Option<Seq<char>>,
    default: Domain,
    for_use_by: ForWhom,
    uid: u32,
)
    requires
        plist.limit_load_to_session_type matches Some(hint) && hint@ == "Aqua"@,
    ensures
        Daemon::spec_from_plist(plist, path, default, for_use_by, uid).domain == Domain::Gui(uid),
{
}

} // verus!
