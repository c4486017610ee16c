//! Who the program runs for.

use vstd::prelude::*;
use crate::text::{parse_number, parse_u32};

verus! {

/// The user whose services are looked at: under `sudo`, the user who
/// called it, as `sudo` names that user; else the user who runs the
/// program.
pub open spec fn owner_of(sudo_uid: Option<Seq<char>>, uid: u32) -> u32 {
    match sudo_uid {
        Some(text) => match parse_u32(text) {
            Some(n) => n,
            None => uid,
        },
        None => uid,
    }
}

pub fn owner(sudo_uid: Option<&str>, uid: u32) -> (r: u32)
    ensures
        r == owner_of(
            match sudo_uid {
                Some(text) => Some(text@),
                None => None,
            },
            uid,
        ),
{
    match sudo_uid {
        Some(text) => match parse_number(text) {
            Some(n) => n,
            None => uid,
        },
        None => uid,
    }
}

/// Whether the effective user is the superuser.
pub fn is_root(euid: u32) -> (b: bool)
    ensures
        b == (euid == 0),
{
    euid == 0
}

} // verus!
