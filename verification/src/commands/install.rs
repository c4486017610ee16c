//! Installing a definition: what is decided before and after the files
//! are touched.

use vstd::prelude::*;
use crate::error::{AngelError, UserError};
use crate::path::{join, join_path};
use crate::text::{chars_of, occurs_at, occurs_at_exec};
use crate::types::{Daemon, Domain, Plist};

verus! {

/// How the definition gets to its place.
#[derive(Debug, Clone, Copy, PartialEq, Eq, Structural)]
pub enum InstallStrategy {
    Copy,
    Symlink,
    Move,
}

/// The mode of a definition in a system directory: its owner reads and
/// writes, all others read.
pub const SYSTEM_FILE_MODE: u32 = 0o644;

/// Whether `s` ends with `suffix`.
pub open spec fn ends_with(s: Seq<char>, suffix: Seq<char>) -> bool {
    suffix.len() <= s.len() && occurs_at(s, suffix, s.len() - suffix.len())
}

/// The file name under which the definition of `service_name` is
/// installed.
pub open spec fn target_file(service_name: Seq<char>) -> Seq<char> {
    if ends_with(service_name, ".plist"@) {
        service_name
    } else {
        service_name + ".plist"@
    }
}

/// Where the definition of `service_name` is installed for `domain`: in
/// the system's directory for the system domain, and below the user's
/// home for the others, which has to be known then.
pub open spec fn target_path(domain: Domain, service_name: Seq<char>, home: Option<Seq<char>>) -> Option<
    Seq<char>,
> {
    match domain {
        Domain::System => Some(join("/Library/LaunchDaemons"@, target_file(service_name))),
        _ => match home {
            Some(h) => Some(join(join(h, "Library/LaunchAgents"@), target_file(service_name))),
            None => None,
        },
    }
}

pub fn make_target_path(domain: &Domain, service_name: &str, home: Option<&str>) -> (r: Result<
    String,
    UserError,
>)
    ensures
        match r {
            Ok(path) => Some(path@) == target_path(
                *domain,
                service_name@,
                match home {
                    Some(h) => Some(h@),
                    None => None,
                },
            ),
            Err(UserError::InvalidArgument(what)) => !(domain is System) && home is None && what@
                == "Could not determine user home directory"@,
            Err(_) => false,
        },
{
    let target_dir = match domain {
        Domain::System => String::from_str("/Library/LaunchDaemons"),
        _ => match home {
            Some(h) => join_path(h, "Library/LaunchAgents"),
            None => {
                return Err(
                    UserError::InvalidArgument(
                        String::from_str("Could not determine user home directory"),
                    ),
                );
            },
        },
    };
    let name = chars_of(service_name);
    let suffix = chars_of(".plist");
    let has_suffix = suffix.len() <= name.len() && occurs_at_exec(
        &name,
        &suffix,
        name.len() - suffix.len(),
    );
    let filename = if has_suffix {
        String::from_str(service_name)
    } else {
        let mut f = String::from_str(service_name);
        f.append(".plist");
        f
    };
    Ok(join_path(target_dir.as_str(), filename.as_str()))
}

/// Whether the installed file is handed over to the superuser: a link
/// into the system domain is.
pub fn needs_system_permissions(selected_domain: &Domain, strategy: &InstallStrategy) -> (b: bool)
    ensures
        b == (*selected_domain == Domain::System && *strategy == InstallStrategy::Symlink),
{
    *selected_domain == Domain::System && *strategy == InstallStrategy::Symlink
}

/// The domains that the user chooses from, for the owner `uid`.
pub fn domain_choices(uid: u32) -> (r: Vec<Domain>)
    ensures
        r@ == seq![Domain::Gui(uid), Domain::System, Domain::User(uid)],
{
    let mut r: Vec<Domain> = Vec::new();
    r.push(Domain::Gui(uid));
    r.push(Domain::System);
    r.push(Domain::User(uid));
    r
}

/// The name under which a definition is installed: its label, which it
/// must have.
pub fn service_label(plist: &Plist) -> (r: Result<String, UserError>)
    ensures
        match r {
            Ok(name) => plist.label matches Some(label) && name@ == label@,
            Err(UserError::InvalidArgument(what)) => plist.label is None && what@
                == "No label found in plist"@,
            Err(_) => false,
        },
{
    match &plist.label {
        Some(label) => Ok(label.clone()),
        None => Err(UserError::InvalidArgument(String::from_str("No label found in plist"))),
    }
}

/// The text that tells the user that the definition asks for another
/// domain than the one chosen.
pub open spec fn mismatch_text(asked: Domain, selected: Domain) -> Seq<char> {
    "The domain written in the plist is `"@ + asked.text()
        + "` does not match the selected domain `"@ + selected.text() + "`."@
}

/// Holds the domain that the user chose against the definition and the
/// user's rights: the definition must not ask for another domain, and the
/// system domain is for the superuser.
pub fn check_domain_selection(plist: &Plist, uid: u32, selected: Domain, is_root: bool) -> (r: Result<
    Domain,
    UserError,
>)
    ensures
        match r {
            Ok(domain) => domain == selected && Domain::spec_from_plist(*plist, uid, selected)
                == selected && (selected is System ==> is_root),
            Err(UserError::InvalidArgument(what)) => Domain::spec_from_plist(
                *plist,
                uid,
                selected,
            ) != selected && what@ == mismatch_text(
                Domain::spec_from_plist(*plist, uid, selected),
                selected,
            ),
            Err(UserError::RequiresRoot) => Domain::spec_from_plist(*plist, uid, selected)
                == selected && selected is System && !is_root,
            Err(_) => false,
        },
{
    let asked = Domain::from_plist(plist, uid, selected);
    if asked != selected {
        let mut what = String::from_str("The domain written in the plist is `");
        what.append(asked.to_string().as_str());
        what.append("` does not match the selected domain `");
        what.append(selected.to_string().as_str());
        what.append("`.");
        return Err(UserError::InvalidArgument(what));
    }
    match selected {
        Domain::System => if !is_root {
            return Err(UserError::RequiresRoot);
        },
        _ => {},
    }
    Ok(selected)
}

/// The instance that has to make way before a definition of its name is
/// loaded: the service that was found under that name, if it runs. A
/// service that was not found, or does not run, is in nobody's way; any
/// other failure of the query stands.
pub fn running_instance<'a>(found: Result<&'a Daemon, AngelError>) -> (r: Result<
    Option<&'a Daemon>,
    AngelError,
>)
    ensures
        match found {
            Ok(d) => r == Ok::<Option<&Daemon>, AngelError>(
                if d.pid is Some {
                    Some(d)
                } else {
                    None
                },
            ),
            Err(AngelError::User(UserError::DaemonNotFound(_))) => r == Ok::<
                Option<&Daemon>,
                AngelError,
            >(None),
            Err(e) => r == Err::<Option<&Daemon>, AngelError>(e),
        },
{
    match found {
        Ok(d) => match d.pid {
            Some(_) => Ok(Some(d)),
            None => Ok(None),
        },
        Err(AngelError::User(UserError::DaemonNotFound(_))) => Ok(None),
        Err(e) => Err(e),
    }
}

} // verus!
