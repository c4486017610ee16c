//! Services are told apart by their names: looking one up, and keeping
//! each name to one entry.

use vstd::prelude::*;
use crate::types::{Daemon, DaemonView};

verus! {

/// The index of the first entry of `reg` that is named `name`.
pub open spec fn position(reg: Seq<DaemonView>, name: Seq<char>) -> Option<int>
    decreases reg.len(),
{
    if reg.len() == 0 {
        None
    } else if reg[0].name == name {
        Some(0)
    } else {
        match position(reg.skip(1), name) {
            Some(i) => Some(i + 1),
            None => None,
        }
    }
}

/// No two entries of `reg` have the same name.
pub open spec fn distinct_names(reg: Seq<DaemonView>) -> bool {
    forall|i: int, j: int| 0 <= i < j < reg.len() ==> reg[i].name != reg[j].name
}

/// `position` finds the first entry of that name, and finds none exactly
/// when there is none.
pub proof fn lemma_position(reg: Seq<DaemonView>, name: Seq<char>)
    ensures
        match position(reg, name) {
            Some(i) => 0 <= i < reg.len() && reg[i].name == name && forall|j: int|
                0 <= j < i ==> reg[j].name != name,
            None => forall|j: int| 0 <= j < reg.len() ==> reg[j].name != name,
        },
    decreases reg.len(),
{
    if reg.len() == 0 {
    } else if reg[0].name == name {
    } else {
        let rest = reg.skip(1);
        lemma_position(rest, name);
        match position(rest, name) {
            Some(i) => {
                assert forall|j: int| 0 <= j < i + 1 implies reg[j].name != name by {
                    if j > 0 {
                        assert(rest[j - 1] == reg[j]);
                    }
                }
            },
            None => {
                assert forall|j: int| 0 <= j < reg.len() implies reg[j].name != name by {
                    if j > 0 {
                        assert(rest[j - 1] == reg[j]);
                    }
                }
            },
        }
    }
}

/// Where an entry named `name` stands at `i` and none stands before it,
/// `position` is `i`.
pub proof fn lemma_position_is(reg: Seq<DaemonView>, name: Seq<char>, i: int)
    requires
        0 <= i < reg.len(),
        reg[i].name == name,
        forall|j: int| 0 <= j < i ==> reg[j].name != name,
    ensures
        position(reg, name) == Some(i),
{
    lemma_position(reg, name);
}

/// An entry that keeps its name can be replaced without a change to
/// where names are found.
pub proof fn lemma_position_update(reg: Seq<DaemonView>, i: int, d: DaemonView, name: Seq<char>)
    requires
        0 <= i < reg.len(),
        d.name == reg[i].name,
    ensures
        position(reg.update(i, d), name) == position(reg, name),
{
    lemma_position(reg, name);
    match position(reg, name) {
        Some(k) => {
            lemma_position_is(reg.update(i, d), name, k);
        },
        None => {
            lemma_position(reg.update(i, d), name);
        },
    }
}

/// An entry that is added at the end is found under its name unless an
/// earlier entry has that name; the other names are found where they
/// were.
pub proof fn lemma_position_push(reg: Seq<DaemonView>, d: DaemonView, name: Seq<char>)
    ensures
        position(reg.push(d), name) == (if position(reg, name) is Some {
            position(reg, name)
        } else if d.name == name {
            Some(reg.len() as int)
        } else {
            None
        }),
{
    lemma_position(reg, name);
    match position(reg, name) {
        Some(k) => {
            lemma_position_is(reg.push(d), name, k);
        },
        None => {
            if d.name == name {
                lemma_position_is(reg.push(d), name, reg.len() as int);
            } else {
                lemma_position(reg.push(d), name);
            }
        },
    }
}

/// Finds the entry named `name`.
pub fn index_of(daemons: &Vec<Daemon>, name: &String) -> (r: Option<usize>)
    ensures
        match r {
            Some(i) => i < daemons.len() && position(daemons.deep_view(), name@) == Some(i as int),
            None => position(daemons.deep_view(), name@) is None,
        },
{
    let ghost reg = daemons.deep_view();
    let mut i: usize = 0;
    while i < daemons.len()
        invariant
            i <= daemons.len(),
            reg == daemons.deep_view(),
            forall|j: int| 0 <= j < i ==> reg[j].name != name@,
        decreases daemons.len() - i,
    {
        if daemons[i].name == *name {
            proof {
                lemma_position_is(reg, name@, i as int);
            }
            return Some(i);
        }
        i += 1;
    }
    proof {
        lemma_position(reg, name@);
    }
    None
}

} // verus!
