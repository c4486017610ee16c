//! Listing services: which are shown, and what a row holds.

use vstd::prelude::*;
use crate::cli::ListArgs;
use crate::path::{parent, parent_of};
use crate::text::{
    chars_eq, chars_le, chars_of, decimal, decimal_string, lemma_lex_le_antisymmetric,
    lemma_lex_le_reflexive, lemma_lex_le_total, lemma_lex_le_transitive, lex_le,
};
use crate::types::{Daemon, DaemonView, ForWhom};

verus! {

/// What the list is ordered by.
#[derive(Debug, Clone, Copy, PartialEq, Eq, Structural)]
pub enum SortBy {
    Parent,
    Domain,
    Name,
}

/// Whether a service is shown: the vendor's services, the services
/// without a definition file and the services that do not run are shown
/// only when asked for.
pub open spec fn shown(d: DaemonView, args: ListArgs) -> bool {
    &&& d.for_use_by == ForWhom::Apple ==> args.show_apple
    &&& d.source_path is None ==> args.show_dynamic
    &&& d.pid is None ==> args.show_idle
}

pub fn is_listed(daemon: &Daemon, args: &ListArgs) -> (b: bool)
    ensures
        b == shown(daemon@, *args),
{
    let hidden = (daemon.for_use_by == ForWhom::Apple && !args.show_apple)
        || (daemon.source_path.is_none() && !args.show_dynamic)
        || (daemon.pid.is_none() && !args.show_idle);
    !hidden
}

/// The headings of the list.
pub fn header() -> (r: Vec<String>)
    ensures
        r.deep_view() == seq!["EC"@, "PID"@, "Domain"@, "Name"@, "Source"@],
{
    let mut r: Vec<String> = Vec::new();
    r.push(String::from_str("EC"));
    r.push(String::from_str("PID"));
    r.push(String::from_str("Domain"));
    r.push(String::from_str("Name"));
    r.push(String::from_str("Source"));
    r
}

/// The row of a service: its last exit code and its process id, with a
/// dash for what is not known; its domain; its name; and `source`, the
/// text that stands for its file.
pub open spec fn row_of(d: DaemonView, source: Seq<char>) -> Seq<Seq<char>> {
    seq![
        match d.last_exit_code {
            Some(code) => code,
            None => "-"@,
        },
        match d.pid {
            Some(pid) => decimal(pid as nat),
            None => "-"@,
        },
        d.domain.text(),
        d.name,
        source,
    ]
}

pub fn row(daemon: &Daemon, source: String) -> (r: Vec<String>)
    ensures
        r.deep_view() == row_of(daemon@, source@),
{
    let mut r: Vec<String> = Vec::new();
    r.push(
        match &daemon.last_exit_code {
            Some(code) => code.clone(),
            None => String::from_str("-"),
        },
    );
    r.push(
        match daemon.pid {
            Some(pid) => decimal_string(pid),
            None => String::from_str("-"),
        },
    );
    r.push(daemon.domain_str());
    r.push(daemon.name.clone());
    r.push(source);
    r
}

/// The directory of the file that defines a service; nothing for a
/// service without a file.
pub open spec fn parent_text(d: DaemonView) -> Seq<char> {
    match d.source_path {
        Some(path) => parent(path),
        None => Seq::empty(),
    }
}

pub fn get_parent_path(daemon: &Daemon) -> (s: String)
    ensures
        s@ == parent_text(daemon@),
{
    match &daemon.source_path {
        Some(path) => parent_of(path.as_str()),
        None => String::new(),
    }
}

/// What the list is ordered by in the first place; services that agree
/// in it are ordered by their names.
pub open spec fn sort_key(d: DaemonView, by: SortBy) -> Seq<char> {
    match by {
        SortBy::Name => Seq::empty(),
        SortBy::Domain => d.domain.text(),
        SortBy::Parent => parent_text(d),
    }
}

/// Whether `a` may stand before `b` in the list.
pub open spec fn in_order(a: DaemonView, b: DaemonView, by: SortBy) -> bool {
    if sort_key(a, by) == sort_key(b, by) {
        lex_le(a.name, b.name)
    } else {
        lex_le(sort_key(a, by), sort_key(b, by))
    }
}

/// Whether each service of `s` may stand before all that follow it.
pub open spec fn ordered(s: Seq<DaemonView>, by: SortBy) -> bool {
    forall|i: int, j: int| 0 <= i < j < s.len() ==> in_order(s[i], s[j], by)
}

/// The ordered list `s` with `x` put in, behind all that may stand before
/// it.
pub open spec fn insert_sorted(s: Seq<DaemonView>, x: DaemonView, by: SortBy) -> Seq<DaemonView>
    decreases s.len(),
{
    if s.len() == 0 {
        seq![x]
    } else if in_order(s.last(), x, by) {
        s.push(x)
    } else {
        insert_sorted(s.drop_last(), x, by).push(s.last())
    }
}

/// The services of `s` in order. Services that may stand either way keep
/// the order that they have in `s`.
pub open spec fn sorted(s: Seq<DaemonView>, by: SortBy) -> Seq<DaemonView>
    decreases s.len(),
{
    if s.len() == 0 {
        Seq::empty()
    } else {
        insert_sorted(sorted(s.drop_last(), by), s.last(), by)
    }
}

pub proof fn lemma_in_order_total(a: DaemonView, b: DaemonView, by: SortBy)
    ensures
        in_order(a, b, by) || in_order(b, a, by),
{
    lemma_lex_le_total(a.name, b.name);
    lemma_lex_le_total(sort_key(a, by), sort_key(b, by));
}

pub proof fn lemma_in_order_transitive(a: DaemonView, b: DaemonView, c: DaemonView, by: SortBy)
    requires
        in_order(a, b, by),
        in_order(b, c, by),
    ensures
        in_order(a, c, by),
{
    let ka = sort_key(a, by);
    let kb = sort_key(b, by);
    let kc = sort_key(c, by);
    lemma_lex_le_reflexive(ka);
    lemma_lex_le_reflexive(kb);
    if ka == kb && kb == kc {
        lemma_lex_le_transitive(a.name, b.name, c.name);
    } else if ka == kb {
    } else if kb == kc {
    } else {
        lemma_lex_le_transitive(ka, kb, kc);
        if ka == kc {
            lemma_lex_le_antisymmetric(ka, kb);
        }
    }
}

/// Putting a service in puts it at some place and moves no other.
pub proof fn lemma_insert_sorted_place(s: Seq<DaemonView>, x: DaemonView, by: SortBy) -> (p: int)
    ensures
        0 <= p <= s.len(),
        insert_sorted(s, x, by) == s.insert(p, x),
    decreases s.len(),
{
    if s.len() == 0 {
        0
    } else if in_order(s.last(), x, by) {
        s.len() as int
    } else {
        lemma_insert_sorted_place(s.drop_last(), x, by)
    }
}

pub proof fn lemma_insert_sorted_ordered(s: Seq<DaemonView>, x: DaemonView, by: SortBy)
    requires
        ordered(s, by),
    ensures
        ordered(insert_sorted(s, x, by), by),
    decreases s.len(),
{
    let r = insert_sorted(s, x, by);
    if s.len() == 0 {
    } else if in_order(s.last(), x, by) {
        assert forall|i: int, j: int| 0 <= i < j < r.len() implies in_order(r[i], r[j], by) by {
            if j == s.len() {
                if i < s.len() - 1 {
                    lemma_in_order_transitive(s[i], s.last(), x, by);
                }
            }
        }
    } else {
        let init = s.drop_last();
        lemma_insert_sorted_ordered(init, x, by);
        lemma_insert_sorted_place(init, x, by);
        lemma_in_order_total(s.last(), x, by);
    }
}

/// The sorted list is in order.
pub proof fn lemma_sorted_is_ordered(s: Seq<DaemonView>, by: SortBy)
    ensures
        ordered(sorted(s, by), by),
    decreases s.len(),
{
    if s.len() > 0 {
        lemma_sorted_is_ordered(s.drop_last(), by);
        lemma_insert_sorted_ordered(sorted(s.drop_last(), by), s.last(), by);
    }
}

/// The sorted list holds the services of the list, each as often as the
/// list holds it.
pub proof fn lemma_sorted_is_permutation(s: Seq<DaemonView>, by: SortBy)
    ensures
        sorted(s, by).to_multiset() == s.to_multiset(),
        sorted(s, by).len() == s.len(),
    decreases s.len(),
{
    if s.len() == 0 {
        assert(s =~= Seq::<DaemonView>::empty());
    } else {
        let init = s.drop_last();
        let mid = sorted(init, by);
        lemma_sorted_is_permutation(init, by);
        let p = lemma_insert_sorted_place(mid, s.last(), by);
        vstd::seq_lib::to_multiset_insert(mid, p, s.last());
        vstd::seq_lib::to_multiset_build(init, s.last());
        assert(init.push(s.last()) =~= s);
        mid.insert_ensures(p, s.last());
    }
}

/// A list that is in order stays as it is.
pub proof fn lemma_sorted_keeps_ordered(s: Seq<DaemonView>, by: SortBy)
    requires
        ordered(s, by),
    ensures
        sorted(s, by) == s,
    decreases s.len(),
{
    if s.len() > 0 {
        lemma_sorted_keeps_ordered(s.drop_last(), by);
    }
}

fn sort_key_of(daemon: &Daemon, by: SortBy) -> (k: Vec<char>)
    ensures
        k@ == sort_key(daemon@, by),
{
    match by {
        SortBy::Name => Vec::new(),
        SortBy::Domain => chars_of(daemon.domain_str().as_str()),
        SortBy::Parent => chars_of(get_parent_path(daemon).as_str()),
    }
}

/// Puts the services in order: by name; or by domain, or by the directory
/// of their files, and by name within the same. Services that agree in
/// all of that keep their order.
pub fn sort_daemons(sort_by: SortBy, daemons: &mut Vec<&Daemon>)
    ensures
        final(daemons).deep_view() == sorted(old(daemons).deep_view(), sort_by),
{
    let ghost all = daemons.deep_view();
    let mut out: Vec<&Daemon> = Vec::new();
    let mut keys: Vec<Vec<char>> = Vec::new();
    let mut names: Vec<Vec<char>> = Vec::new();
    let mut i: usize = 0;
    while i < daemons.len()
        invariant
            i <= daemons.len(),
            all == daemons.deep_view(),
            out.len() == i,
            keys.len() == i,
            names.len() == i,
            out.deep_view() == sorted(all.take(i as int), sort_by),
            forall|k: int| 0 <= k < i ==> (#[trigger] keys@[k])@ == sort_key(out@[k]@, sort_by),
            forall|k: int| 0 <= k < i ==> (#[trigger] names@[k])@ == out@[k]@.name,
        decreases daemons.len() - i,
    {
        let x: &Daemon = daemons[i];
        let key = sort_key_of(x, sort_by);
        let name = chars_of(x.name.as_str());
        let ghost s = out.deep_view();
        let mut j: usize = out.len();
        assert(s.take(j as int) =~= s);
        loop
            invariant
                j <= out.len(),
                out.len() == i,
                keys.len() == i,
                names.len() == i,
                s == out.deep_view(),
                key@ == sort_key(x@, sort_by),
                name@ == x@.name,
                forall|k: int| 0 <= k < i ==> (#[trigger] keys@[k])@ == sort_key(out@[k]@, sort_by),
                forall|k: int| 0 <= k < i ==> (#[trigger] names@[k])@ == out@[k]@.name,
                insert_sorted(s, x@, sort_by) == insert_sorted(s.take(j as int), x@, sort_by)
                    + s.skip(j as int),
            ensures
                j <= out.len(),
                insert_sorted(s, x@, sort_by) == s.insert(j as int, x@),
            decreases j,
        {
            if j == 0 {
                break;
            }
            let before = if chars_eq(&keys[j - 1], &key) {
                chars_le(&names[j - 1], &name)
            } else {
                chars_le(&keys[j - 1], &key)
            };
            if before {
                break;
            }
            proof {
                assert(s.take(j as int).drop_last() =~= s.take(j - 1));
                assert(insert_sorted(s.take(j - 1), x@, sort_by).push(s[j - 1]) + s.skip(j as int)
                    =~= insert_sorted(s.take(j - 1), x@, sort_by) + s.skip(j - 1));
            }
            j -= 1;
        }
        out.insert(j, x);
        keys.insert(j, key);
        names.insert(j, name);
        assert(all.take(i + 1).drop_last() =~= all.take(i as int));
        i += 1;
    }
    assert(all.take(i as int) =~= all);
    *daemons = out;
}

} // verus!
