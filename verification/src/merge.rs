//! Bringing the live state that the service manager reports into the
//! registry.

use vstd::prelude::*;
use crate::names::{distinct_names, index_of, lemma_position, position};
use crate::parser::{FactView, ServiceFact};
use crate::text::{contains, contains_str};
use crate::types::{Daemon, DaemonView, Domain, ForWhom};

verus! {

/// What the query of one domain brought: the facts of its report, or
/// nothing where the query failed.
#[derive(Debug, Clone)]
pub struct DomainReport {
    pub domain: Domain,
    pub services: Option<Vec<ServiceFact>>,
}

/// `DomainReport`, with its texts as sequences of characters.
pub struct DomainReportView {
    pub domain: Domain,
    pub services: Option<Seq<FactView>>,
}

impl View for DomainReport {
    type V = DomainReportView;

    open spec fn view(&self) -> DomainReportView {
        DomainReportView { domain: self.domain, services: self.services.deep_view() }
    }
}

impl DeepView for DomainReport {
    type V = DomainReportView;

    open spec fn deep_view(&self) -> DomainReportView {
        self@
    }
}

/// Whether `name` is a name as the vendor of the operating system gives
/// them.
pub open spec fn vendor_named(name: Seq<char>) -> bool {
    contains(name, "com.apple"@)
}

/// The service that is known from a report alone: it has no definition
/// and no source, belongs to the domain that was asked, and is the
/// vendor's if it is named so.
pub open spec fn runtime_only(domain: Domain, fact: FactView) -> DaemonView {
    DaemonView {
        name: fact.2,
        source_path: None,
        domain,
        for_use_by: if vendor_named(fact.2) {
            ForWhom::Apple
        } else {
            ForWhom::ThirdParty
        },
        plist: None,
        pid: fact.0,
        last_exit_code: fact.1,
    }
}

/// `d` with the state that `fact` reports. All else stays.
pub open spec fn with_state(d: DaemonView, fact: FactView) -> DaemonView {
    DaemonView { pid: fact.0, last_exit_code: fact.1, ..d }
}

/// The registry after one fact of the report on `domain` was applied:
/// the service of that name gets the reported state, and a service that
/// was not known is added.
pub open spec fn apply_fact(reg: Seq<DaemonView>, domain: Domain, fact: FactView) -> Seq<
    DaemonView,
> {
    match position(reg, fact.2) {
        Some(i) => reg.update(i, with_state(reg[i], fact)),
        None => reg.push(runtime_only(domain, fact)),
    }
}

/// The registry after the facts were applied in their order.
pub open spec fn apply_facts(reg: Seq<DaemonView>, domain: Domain, facts: Seq<FactView>) -> Seq<
    DaemonView,
>
    decreases facts.len(),
{
    if facts.len() == 0 {
        reg
    } else {
        apply_fact(apply_facts(reg, domain, facts.drop_last()), domain, facts.last())
    }
}

/// The registry after one report was applied. The report of a query that
/// failed changes nothing.
pub open spec fn apply_report(reg: Seq<DaemonView>, report: DomainReportView) -> Seq<DaemonView> {
    match report.services {
        Some(facts) => apply_facts(reg, report.domain, facts),
        None => reg,
    }
}

/// The registry after the reports were applied one after the other, in
/// their order.
pub open spec fn apply_reports(reg: Seq<DaemonView>, reports: Seq<DomainReportView>) -> Seq<
    DaemonView,
>
    decreases reports.len(),
{
    if reports.len() == 0 {
        reg
    } else {
        apply_report(apply_reports(reg, reports.drop_last()), reports.last())
    }
}

pub proof fn lemma_apply_fact_distinct(reg: Seq<DaemonView>, domain: Domain, fact: FactView)
    requires
        distinct_names(reg),
    ensures
        distinct_names(apply_fact(reg, domain, fact)),
{
    lemma_position(reg, fact.2);
}

pub proof fn lemma_apply_facts_distinct(reg: Seq<DaemonView>, domain: Domain, facts: Seq<FactView>)
    requires
        distinct_names(reg),
    ensures
        distinct_names(apply_facts(reg, domain, facts)),
    decreases facts.len(),
{
    if facts.len() > 0 {
        lemma_apply_facts_distinct(reg, domain, facts.drop_last());
        lemma_apply_fact_distinct(
            apply_facts(reg, domain, facts.drop_last()),
            domain,
            facts.last(),
        );
    }
}

/// Applying reports keeps each name to one entry.
pub proof fn lemma_apply_reports_distinct(reg: Seq<DaemonView>, reports: Seq<DomainReportView>)
    requires
        distinct_names(reg),
    ensures
        distinct_names(apply_reports(reg, reports)),
    decreases reports.len(),
{
    if reports.len() > 0 {
        lemma_apply_reports_distinct(reg, reports.drop_last());
        match reports.last().services {
            Some(facts) => {
                lemma_apply_facts_distinct(
                    apply_reports(reg, reports.drop_last()),
                    reports.last().domain,
                    facts,
                );
            },
            None => {},
        }
    }
}

/// A fact about a service that is not known yet adds that service: it
/// has no source and no definition, belongs to the domain that was asked,
/// and is the vendor's exactly if it is named so.
pub proof fn lemma_unknown_service_is_added(reg: Seq<DaemonView>, domain: Domain, fact: FactView)
    requires
        position(reg, fact.2) is None,
    ensures
        apply_fact(reg, domain, fact) == reg.push(runtime_only(domain, fact)),
        runtime_only(domain, fact).name == fact.2,
        runtime_only(domain, fact).source_path is None,
        runtime_only(domain, fact).plist is None,
        runtime_only(domain, fact).domain == domain,
        runtime_only(domain, fact).pid == fact.0,
        runtime_only(domain, fact).last_exit_code == fact.1,
        vendor_named(fact.2) ==> runtime_only(domain, fact).for_use_by == ForWhom::Apple,
        !vendor_named(fact.2) ==> runtime_only(domain, fact).for_use_by == ForWhom::ThirdParty,
{
}

/// A fact about a known service changes the state of that service and
/// nothing else: its domain, its owner, its source and its definition
/// stay, and so do all other services.
pub proof fn lemma_known_service_is_updated(
    reg: Seq<DaemonView>,
    domain: Domain,
    fact: FactView,
    i: int,
)
    requires
        position(reg, fact.2) == Some(i),
    ensures
        0 <= i < reg.len(),
        apply_fact(reg, domain, fact).len() == reg.len(),
        apply_fact(reg, domain, fact)[i].pid == fact.0,
        apply_fact(reg, domain, fact)[i].last_exit_code == fact.1,
        apply_fact(reg, domain, fact)[i].name == reg[i].name,
        apply_fact(reg, domain, fact)[i].domain == reg[i].domain,
        apply_fact(reg, domain, fact)[i].for_use_by == reg[i].for_use_by,
        apply_fact(reg, domain, fact)[i].source_path == reg[i].source_path,
        apply_fact(reg, domain, fact)[i].plist == reg[i].plist,
        forall|j: int| 0 <= j < reg.len() && j != i ==> apply_fact(reg, domain, fact)[j] == reg[j],
{
    lemma_position(reg, fact.2);
}

/// What stays of a service while reports are applied.
pub open spec fn same_identity(a: DaemonView, b: DaemonView) -> bool {
    &&& a.name == b.name
    &&& a.domain == b.domain
    &&& a.for_use_by == b.for_use_by
    &&& a.source_path == b.source_path
    &&& a.plist == b.plist
}

/// `after` holds every service of `before` in its place, unchanged but
/// for its state; it may hold more.
pub open spec fn extends(before: Seq<DaemonView>, after: Seq<DaemonView>) -> bool {
    &&& before.len() <= after.len()
    &&& forall|i: int| 0 <= i < before.len() ==> same_identity(#[trigger] before[i], after[i])
}

pub proof fn lemma_apply_fact_extends(reg: Seq<DaemonView>, domain: Domain, fact: FactView)
    ensures
        extends(reg, apply_fact(reg, domain, fact)),
        position(apply_fact(reg, domain, fact), fact.2) is Some,
        forall|name: Seq<char>|
            position(reg, name) is Some ==> position(apply_fact(reg, domain, fact), name)
                == #[trigger] position(reg, name),
{
    lemma_position(reg, fact.2);
    let after = apply_fact(reg, domain, fact);
    assert forall|name: Seq<char>| position(reg, name) is Some implies position(after, name)
        == #[trigger] position(reg, name) by {
        match position(reg, fact.2) {
            Some(i) => {
                crate::names::lemma_position_update(reg, i, with_state(reg[i], fact), name);
            },
            None => {
                crate::names::lemma_position_push(reg, runtime_only(domain, fact), name);
            },
        }
    }
    match position(reg, fact.2) {
        Some(i) => {
            crate::names::lemma_position_update(reg, i, with_state(reg[i], fact), fact.2);
        },
        None => {
            crate::names::lemma_position_push(reg, runtime_only(domain, fact), fact.2);
        },
    }
}

pub proof fn lemma_apply_facts_extends(reg: Seq<DaemonView>, domain: Domain, facts: Seq<FactView>)
    ensures
        extends(reg, apply_facts(reg, domain, facts)),
        forall|name: Seq<char>|
            position(reg, name) is Some ==> position(apply_facts(reg, domain, facts), name)
                == #[trigger] position(reg, name),
        forall|k: int|
            0 <= k < facts.len() ==> position(
                apply_facts(reg, domain, facts),
                (#[trigger] facts[k]).2,
            ) is Some,
    decreases facts.len(),
{
    if facts.len() > 0 {
        let mid = apply_facts(reg, domain, facts.drop_last());
        let after = apply_facts(reg, domain, facts);
        lemma_apply_facts_extends(reg, domain, facts.drop_last());
        lemma_apply_fact_extends(mid, domain, facts.last());
        assert forall|k: int| 0 <= k < facts.len() implies position(
            after,
            (#[trigger] facts[k]).2,
        ) is Some by {
            if k < facts.len() - 1 {
                assert(facts.drop_last()[k] == facts[k]);
            }
        }
    }
}

/// Applying reports deletes no service and moves none: every service
/// that was known stays in its place, with its name, domain, owner,
/// source and definition, and is found under its name as before.
pub proof fn lemma_apply_reports_extends(reg: Seq<DaemonView>, reports: Seq<DomainReportView>)
    ensures
        extends(reg, apply_reports(reg, reports)),
        forall|name: Seq<char>|
            position(reg, name) is Some ==> position(apply_reports(reg, reports), name)
                == #[trigger] position(reg, name),
    decreases reports.len(),
{
    if reports.len() > 0 {
        let mid = apply_reports(reg, reports.drop_last());
        lemma_apply_reports_extends(reg, reports.drop_last());
        match reports.last().services {
            Some(facts) => {
                lemma_apply_facts_extends(mid, reports.last().domain, facts);
            },
            None => {},
        }
    }
}

/// Reports that are applied one after the other can be applied in two
/// runs.
pub proof fn lemma_apply_reports_concat(
    reg: Seq<DaemonView>,
    first: Seq<DomainReportView>,
    second: Seq<DomainReportView>,
)
    ensures
        apply_reports(reg, first + second) == apply_reports(apply_reports(reg, first), second),
    decreases second.len(),
{
    if second.len() > 0 {
        assert((first + second).drop_last() =~= first + second.drop_last());
        lemma_apply_reports_concat(reg, first, second.drop_last());
    }
}

/// A query that failed takes nothing from the registry: the outcome is
/// the one that the other reports give without it.
pub proof fn lemma_failed_report_changes_nothing(
    reg: Seq<DaemonView>,
    before: Seq<DomainReportView>,
    failed: DomainReportView,
    after: Seq<DomainReportView>,
)
    requires
        failed.services is None,
    ensures
        apply_reports(reg, before + seq![failed] + after) == apply_reports(reg, before + after),
{
    lemma_apply_reports_concat(reg, before + seq![failed], after);
    lemma_apply_reports_concat(reg, before, after);
    assert((before + seq![failed]).drop_last() =~= before);
}

/// Every service that a report tells of is in the registry afterwards,
/// whatever the reports are that come before and after it.
pub proof fn lemma_reported_service_is_known(
    reg: Seq<DaemonView>,
    before: Seq<DomainReportView>,
    report: DomainReportView,
    after: Seq<DomainReportView>,
    k: int,
)
    requires
        report.services matches Some(facts) && 0 <= k < facts.len(),
    ensures
        position(
            apply_reports(reg, before + seq![report] + after),
            report.services.unwrap()[k].2,
        ) is Some,
{
    let facts = report.services.unwrap();
    let start = apply_reports(reg, before);
    lemma_apply_reports_concat(reg, before + seq![report], after);
    assert((before + seq![report]).drop_last() =~= before);
    let mid = apply_reports(reg, before + seq![report]);
    lemma_apply_facts_extends(start, report.domain, facts);
    lemma_apply_reports_extends(mid, after);
}

/// Whether one of the facts tells of a service named `name`.
pub open spec fn tells_of(facts: Seq<FactView>, name: Seq<char>) -> bool {
    exists|k: int| 0 <= k < facts.len() && (#[trigger] facts[k]).2 == name
}

/// Whether the report of a query that succeeded tells of a service named
/// `name`.
pub open spec fn reported(reports: Seq<DomainReportView>, name: Seq<char>) -> bool {
    exists|r: int|
        0 <= r < reports.len() && (#[trigger] reports[r]).services is Some && tells_of(
            reports[r].services.unwrap(),
            name,
        )
}

pub proof fn lemma_apply_fact_names(
    reg: Seq<DaemonView>,
    domain: Domain,
    fact: FactView,
    name: Seq<char>,
)
    ensures
        position(apply_fact(reg, domain, fact), name) is Some <==> position(reg, name) is Some
            || fact.2 == name,
{
    lemma_position(reg, fact.2);
    match position(reg, fact.2) {
        Some(i) => {
            crate::names::lemma_position_update(reg, i, with_state(reg[i], fact), name);
        },
        None => {
            crate::names::lemma_position_push(reg, runtime_only(domain, fact), name);
        },
    }
}

pub proof fn lemma_apply_facts_names(
    reg: Seq<DaemonView>,
    domain: Domain,
    facts: Seq<FactView>,
    name: Seq<char>,
)
    ensures
        position(apply_facts(reg, domain, facts), name) is Some <==> position(reg, name) is Some
            || tells_of(facts, name),
    decreases facts.len(),
{
    if facts.len() > 0 {
        let init = facts.drop_last();
        lemma_apply_facts_names(reg, domain, init, name);
        lemma_apply_fact_names(apply_facts(reg, domain, init), domain, facts.last(), name);
        if tells_of(init, name) {
            let k = choose|k: int| 0 <= k < init.len() && (#[trigger] init[k]).2 == name;
            assert(facts[k] == init[k]);
        }
        if facts.last().2 == name {
            assert(facts[facts.len() - 1].2 == name);
        }
        if tells_of(facts, name) {
            let k = choose|k: int| 0 <= k < facts.len() && (#[trigger] facts[k]).2 == name;
            if k < init.len() {
                assert(init[k] == facts[k]);
            }
        }
    }
}

/// The services of the registry after the reports were applied are those
/// that were known before and those that a report of a query that
/// succeeded tells of: no others.
pub proof fn lemma_apply_reports_names(
    reg: Seq<DaemonView>,
    reports: Seq<DomainReportView>,
    name: Seq<char>,
)
    ensures
        position(apply_reports(reg, reports), name) is Some <==> position(reg, name) is Some
            || reported(reports, name),
    decreases reports.len(),
{
    if reports.len() > 0 {
        let init = reports.drop_last();
        let last = reports.last();
        lemma_apply_reports_names(reg, init, name);
        match last.services {
            Some(facts) => {
                lemma_apply_facts_names(apply_reports(reg, init), last.domain, facts, name);
                if tells_of(facts, name) {
                    assert(reports[reports.len() - 1] == last);
                }
            },
            None => {},
        }
        if reported(init, name) {
            let r = choose|r: int|
                0 <= r < init.len() && (#[trigger] init[r]).services is Some && tells_of(
                    init[r].services.unwrap(),
                    name,
                );
            assert(reports[r] == init[r]);
        }
        if reported(reports, name) {
            let r = choose|r: int|
                0 <= r < reports.len() && (#[trigger] reports[r]).services is Some && tells_of(
                    reports[r].services.unwrap(),
                    name,
                );
            if r < init.len() {
                assert(init[r] == reports[r]);
            }
        }
    }
}

/// Applies one fact of the report on `domain`.
pub fn merge_fact(daemons: &mut Vec<Daemon>, domain: Domain, fact: ServiceFact)
    ensures
        final(daemons).deep_view() == apply_fact(old(daemons).deep_view(), domain, fact.deep_view()),
{
    let (pid, last_exit_code, name) = fact;
    match index_of(daemons, &name) {
        Some(i) => {
            daemons[i].pid = pid;
            daemons[i].last_exit_code = last_exit_code;
        },
        None => {
            let for_use_by = if contains_str(name.as_str(), "com.apple") {
                ForWhom::Apple
            } else {
                ForWhom::ThirdParty
            };
            let daemon = Daemon::new(name, None, domain, for_use_by, None, pid, last_exit_code);
            daemons.push(daemon);
        },
    }
}

/// Applies one report.
pub fn merge_report(daemons: &mut Vec<Daemon>, report: DomainReport)
    ensures
        final(daemons).deep_view() == apply_report(old(daemons).deep_view(), report@),
{
    let ghost reg = daemons.deep_view();
    let DomainReport { domain, services } = report;
    match services {
        Some(facts) => {
            let ghost all = facts.deep_view();
            for fact in it: facts
                invariant
                    all == facts.deep_view(),
                    it.seq() == facts@,
                    daemons.deep_view() == apply_facts(reg, domain, all.take(it.index() as int)),
            {
                proof {
                    let k = it.index() as int;
                    assert(all.take(k + 1).drop_last() =~= all.take(k));
                }
                merge_fact(daemons, domain, fact);
            }
            assert(all.take(facts.len() as int) =~= all);
        },
        None => {},
    }
}

} // verus!
