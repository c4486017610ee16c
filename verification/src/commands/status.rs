//! The state of one service, read from its report.

use vstd::prelude::*;
use crate::text::{contains, contains_str};

verus! {

/// The state that a service report tells of: the first of `running`,
/// `stopped`, `launched` and `exited` that it names as the state, and
/// `unknown` where it names none of them.
pub open spec fn status_of(output: Seq<char>) -> Seq<char> {
    if contains(output, "state = running"@) {
        "running"@
    } else if contains(output, "state = stopped"@) {
        "stopped"@
    } else if contains(output, "state = launched"@) {
        "launched"@
    } else if contains(output, "state = exited"@) {
        "exited"@
    } else {
        "unknown"@
    }
}

pub fn extract_status(output: &str) -> (status: String)
    ensures
        status@ == status_of(output@),
{
    if contains_str(output, "state = running") {
        String::from_str("running")
    } else if contains_str(output, "state = stopped") {
        String::from_str("stopped")
    } else if contains_str(output, "state = launched") {
        String::from_str("launched")
    } else if contains_str(output, "state = exited") {
        String::from_str("exited")
    } else {
        String::from_str("unknown")
    }
}

} // verus!
