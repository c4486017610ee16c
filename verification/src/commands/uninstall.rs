//! Uninstalling a service: finding the file that defines it.

use vstd::prelude::*;
use crate::error::UserError;
use crate::parser::{DetailView, ServiceDetail};
use crate::types::{Daemon, DaemonView};

verus! {

/// The file that defines a service: its source, where the registry knows
/// one, and else the path that the service manager's report on it gives.
pub open spec fn source_path_of(d: DaemonView, detail: Option<DetailView>) -> Option<Seq<char>> {
    match d.source_path {
        Some(path) => Some(path),
        None => match detail {
            Some(found) => found.3,
            None => None,
        },
    }
}

/// Whether the report on a service has to be asked for to find its file.
pub fn needs_report(daemon: &Daemon) -> (b: bool)
    ensures
        b == (daemon.source_path is None),
{
    daemon.source_path.is_none()
}

pub fn get_source_path(daemon: &Daemon, detail: Option<ServiceDetail>) -> (r: Result<
    String,
    UserError,
>)
    ensures
        match r {
            Ok(path) => source_path_of(daemon@, detail.deep_view()) == Some(path@),
            Err(UserError::InvalidArgument(what)) => source_path_of(daemon@, detail.deep_view())
                is None && what@ == "Service does not have an installed plist file"@,
            Err(_) => false,
        },
{
    match &daemon.source_path {
        Some(path) => Ok(path.clone()),
        None => {
            let reported = match detail {
                Some((_, _, _, path)) => path,
                None => None,
            };
            match reported {
                Some(path) => Ok(path),
                None => Err(
                    UserError::InvalidArgument(
                        String::from_str("Service does not have an installed plist file"),
                    ),
                ),
            }
        },
    }
}

} // verus!
