//! Where definitions are looked for, and the registry of all services.

use vstd::prelude::*;
use crate::config::{Config, DirectoryView};
use crate::error::{AngelError, SystemError, UserError};
use crate::merge::{
    apply_reports, lemma_apply_reports_distinct, merge_report, DomainReport, DomainReportView,
};
use crate::names::{distinct_names, index_of, position};
use crate::path::{join, join_path};
use crate::pattern::{error_text, name_pattern, pattern_for, regex_is_match, search};
use crate::scan::{lemma_scan_dirs_wf, record_dir, scan_dirs, scanned, Scan, ScannedDir, ScannedDirView};
use crate::text::{chars_of, starts_with};
use crate::types::{Daemon, DaemonView, Domain, ForWhom};

verus! {

/// A directory in which definitions are looked for.
#[derive(Debug, Clone)]
pub struct PlistDir {
    pub path: String,
    /// The domain of the services defined here, unless a definition says
    /// otherwise.
    pub domain: Domain,
    pub for_use_by: ForWhom,
    /// Whether the service manager itself watches this directory.
    pub is_system_monitored: bool,
}

/// `PlistDir`, with its path as a sequence of characters.
pub struct PlistDirView {
    pub path: Seq<char>,
    pub domain: Domain,
    pub for_use_by: ForWhom,
    pub is_system_monitored: bool,
}

impl View for PlistDir {
    type V = PlistDirView;

    open spec fn view(&self) -> PlistDirView {
        PlistDirView {
            path: self.path@,
            domain: self.domain,
            for_use_by: self.for_use_by,
            is_system_monitored: self.is_system_monitored,
        }
    }
}

impl DeepView for PlistDir {
    type V = PlistDirView;

    open spec fn deep_view(&self) -> PlistDirView {
        self@
    }
}

/// The directories of the operating system and of its vendors. The
/// service manager watches all of them.
pub open spec fn system_dirs(uid: u32) -> Seq<PlistDirView> {
    seq![
        PlistDirView {
            path: "/System/Library/LaunchDaemons"@,
            domain: Domain::System,
            for_use_by: ForWhom::Apple,
            is_system_monitored: true,
        },
        PlistDirView {
            path: "/System/Library/LaunchAgents"@,
            domain: Domain::Gui(uid),
            for_use_by: ForWhom::Apple,
            is_system_monitored: true,
        },
        PlistDirView {
            path: "/System/Library/LaunchAngels"@,
            domain: Domain::Gui(uid),
            for_use_by: ForWhom::Apple,
            is_system_monitored: true,
        },
        PlistDirView {
            path: "/Library/LaunchDaemons"@,
            domain: Domain::System,
            for_use_by: ForWhom::ThirdParty,
            is_system_monitored: true,
        },
        PlistDirView {
            path: "/Library/LaunchAgents"@,
            domain: Domain::User(uid),
            for_use_by: ForWhom::ThirdParty,
            is_system_monitored: true,
        },
    ]
}

/// The directories below the user's home: the user's own agents, which
/// the service manager watches, and the three directories that this tool
/// keeps, one for each domain, which it does not watch. Without a home
/// directory there are none.
pub open spec fn home_dirs(home: Seq<char>, uid: u32) -> Seq<PlistDirView> {
    if home.len() == 0 {
        Seq::empty()
    } else {
        seq![
            PlistDirView {
                path: join(home, "Library/LaunchAgents"@),
                domain: Domain::User(uid),
                for_use_by: ForWhom::User,
                is_system_monitored: true,
            },
            PlistDirView {
                path: join(home, ".config/angel/user"@),
                domain: Domain::User(uid),
                for_use_by: ForWhom::Angel,
                is_system_monitored: false,
            },
            PlistDirView {
                path: join(home, ".config/angel/system"@),
                domain: Domain::System,
                for_use_by: ForWhom::Angel,
                is_system_monitored: false,
            },
            PlistDirView {
                path: join(home, ".config/angel/gui"@),
                domain: Domain::Gui(uid),
                for_use_by: ForWhom::Angel,
                is_system_monitored: false,
            },
        ]
    }
}

/// A directory that the user configured, put to use for the owner `uid`.
pub open spec fn configured_dir(dir: DirectoryView, uid: u32) -> PlistDirView {
    PlistDirView {
        path: dir.path,
        domain: dir.domain.spec_with_owner(uid),
        for_use_by: ForWhom::User,
        is_system_monitored: false,
    }
}

/// The directories that the user configured, in their order.
pub open spec fn configured_dirs(dirs: Seq<DirectoryView>, uid: u32) -> Seq<PlistDirView> {
    Seq::new(dirs.len(), |i: int| configured_dir(dirs[i], uid))
}

/// All directories in which definitions are looked for, in the order in
/// which they are scanned: a later one can override an earlier one.
pub open spec fn plist_dirs(configured: Seq<DirectoryView>, uid: u32, home: Seq<char>) -> Seq<
    PlistDirView,
> {
    system_dirs(uid) + home_dirs(home, uid) + configured_dirs(configured, uid)
}

fn plist_dir(path: String, domain: Domain, for_use_by: ForWhom, is_system_monitored: bool) -> (d:
    PlistDir)
    ensures
        d@ == (PlistDirView { path: path@, domain, for_use_by, is_system_monitored }),
{
    PlistDir { path, domain, for_use_by, is_system_monitored }
}

/// The directories in which definitions are looked for, for the owner
/// `user_uid` whose home directory is `home` (empty where there is none).
pub fn get_plist_dirs(config: &Config, user_uid: u32, home: &str) -> (dirs: Vec<PlistDir>)
    ensures
        dirs.deep_view() == plist_dirs(config.directory_views(), user_uid, home@),
{
    let mut dirs: Vec<PlistDir> = Vec::new();
    dirs.push(
        plist_dir(
            String::from_str("/System/Library/LaunchDaemons"),
            Domain::System,
            ForWhom::Apple,
            true,
        ),
    );
    dirs.push(
        plist_dir(
            String::from_str("/System/Library/LaunchAgents"),
            Domain::Gui(user_uid),
            ForWhom::Apple,
            true,
        ),
    );
    dirs.push(
        plist_dir(
            String::from_str("/System/Library/LaunchAngels"),
            Domain::Gui(user_uid),
            ForWhom::Apple,
            true,
        ),
    );
    dirs.push(
        plist_dir(
            String::from_str("/Library/LaunchDaemons"),
            Domain::System,
            ForWhom::ThirdParty,
            true,
        ),
    );
    dirs.push(
        plist_dir(
            String::from_str("/Library/LaunchAgents"),
            Domain::User(user_uid),
            ForWhom::ThirdParty,
            true,
        ),
    );
    if chars_of(home).len() > 0 {
        dirs.push(
            plist_dir(
                join_path(home, "Library/LaunchAgents"),
                Domain::User(user_uid),
                ForWhom::User,
                true,
            ),
        );
        dirs.push(
            plist_dir(
                join_path(home, ".config/angel/user"),
                Domain::User(user_uid),
                ForWhom::Angel,
                false,
            ),
        );
        dirs.push(
            plist_dir(
                join_path(home, ".config/angel/system"),
                Domain::System,
                ForWhom::Angel,
                false,
            ),
        );
        dirs.push(
            plist_dir(
                join_path(home, ".config/angel/gui"),
                Domain::Gui(user_uid),
                ForWhom::Angel,
                false,
            ),
        );
    }
    let configured = config.get_directories();
    let ghost cfg = config.directory_views();
    let ghost fixed = dirs.deep_view();
    let mut i: usize = 0;
    while i < configured.len()
        invariant
            i <= configured.len(),
            cfg == configured.deep_view(),
            dirs.deep_view() == fixed + configured_dirs(cfg, user_uid).take(i as int),
        decreases configured.len() - i,
    {
        let ghost before = dirs.deep_view();
        let d = plist_dir(
            configured[i].path.clone(),
            configured[i].domain.with_owner(user_uid),
            ForWhom::User,
            false,
        );
        dirs.push(d);
        i += 1;
        assert(dirs.deep_view() =~= before.push(d@));
    }
    dirs
}

/// The registry that is built, for the owner `uid`, from what was found
/// on disk and what the service manager reported: the definitions are
/// taken stock of first, then the reports are applied in their order.
pub open spec fn registry(
    dirs: Seq<ScannedDirView>,
    reports: Seq<DomainReportView>,
    uid: u32,
) -> Seq<DaemonView> {
    apply_reports(scanned(dirs, uid).daemons, reports)
}

/// The domains that are asked for a report, in the order in which their
/// reports are applied.
pub open spec fn report_domains(uid: u32) -> Seq<Domain> {
    seq![Domain::System, Domain::User(uid), Domain::Gui(uid)]
}

/// The first `n` entries of `reg` that are marked in `hits`.
pub open spec fn selected_upto(reg: Seq<DaemonView>, hits: Seq<bool>, n: int) -> Seq<DaemonView>
    decreases n,
{
    if n <= 0 {
        Seq::empty()
    } else if hits[n - 1] {
        selected_upto(reg, hits, n - 1).push(reg[n - 1])
    } else {
        selected_upto(reg, hits, n - 1)
    }
}

/// The entries of `reg` that are marked in `hits`, in their order.
pub open spec fn selected(reg: Seq<DaemonView>, hits: Seq<bool>) -> Seq<DaemonView> {
    selected_upto(reg, hits, reg.len() as int)
}

/// For each entry of `reg`, whether `pattern` matches in its name.
pub open spec fn hits(reg: Seq<DaemonView>, pattern: Seq<char>) -> Seq<bool> {
    Seq::new(reg.len(), |i: int| regex_is_match(pattern, reg[i].name))
}

/// The entries of `reg` in whose names `pattern` matches, in their order.
pub open spec fn matching(reg: Seq<DaemonView>, pattern: Seq<char>) -> Seq<DaemonView> {
    selected(reg, hits(reg, pattern))
}

/// The registry holds each name once.
pub proof fn lemma_registry_names_distinct(
    dirs: Seq<ScannedDirView>,
    reports: Seq<DomainReportView>,
    uid: u32,
)
    ensures
        distinct_names(registry(dirs, reports, uid)),
{
    lemma_scan_dirs_wf(Scan::empty(), dirs, uid);
    lemma_apply_reports_distinct(scanned(dirs, uid).daemons, reports);
}

/// The registry holds the services that a file in one of the directories
/// defines and those that the report of a query that succeeded tells of:
/// no others, and none of them is missing.
pub proof fn lemma_registry_names(
    dirs: Seq<ScannedDirView>,
    reports: Seq<DomainReportView>,
    uid: u32,
    name: Seq<char>,
)
    ensures
        position(registry(dirs, reports, uid), name) is Some <==> !crate::scan::no_dir_defines(
            dirs,
            name,
        ) || crate::merge::reported(reports, name),
{
    crate::scan::lemma_scan_dirs_names(Scan::empty(), dirs, uid, name);
    crate::merge::lemma_apply_reports_names(scanned(dirs, uid).daemons, reports, name);
}

/// A query that failed does not make the build fail and takes nothing
/// from the registry: what was found on disk is all there, in its place
/// and with its domain, owner, source and definition, and the registry is
/// the one that the other reports give without the failed one.
pub proof fn lemma_registry_survives_failed_query(
    dirs: Seq<ScannedDirView>,
    before: Seq<DomainReportView>,
    failed: DomainReportView,
    after: Seq<DomainReportView>,
    uid: u32,
)
    requires
        failed.services is None,
    ensures
        registry(dirs, before + seq![failed] + after, uid) == registry(
            dirs,
            before + after,
            uid,
        ),
        crate::merge::extends(
            scanned(dirs, uid).daemons,
            registry(dirs, before + seq![failed] + after, uid),
        ),
{
    crate::merge::lemma_failed_report_changes_nothing(
        scanned(dirs, uid).daemons,
        before,
        failed,
        after,
    );
    crate::merge::lemma_apply_reports_extends(
        scanned(dirs, uid).daemons,
        before + seq![failed] + after,
    );
}

/// A definition whose session type is `Aqua`, and which no later file
/// replaces, gives a service of the graphical session of the owner for
/// whom the registry is built, whatever the domain of its directory and
/// whatever the reports say.
pub proof fn lemma_registry_aqua_is_gui(
    before: Seq<ScannedDirView>,
    dir: crate::daemon::PlistDirView,
    earlier: Seq<crate::scan::PlistFileView>,
    file: crate::scan::PlistFileView,
    later: Seq<crate::scan::PlistFileView>,
    after: Seq<ScannedDirView>,
    reports: Seq<DomainReportView>,
    uid: u32,
)
    requires
        file.plist.limit_load_to_session_type matches Some(hint) && hint@ == "Aqua"@,
        crate::scan::none_defines(later, crate::scan::defined_name(file)),
        crate::scan::no_dir_defines(after, crate::scan::defined_name(file)),
    ensures
        ({
            let here = ScannedDirView { dir, files: earlier + seq![file] + later };
            let reg = registry(before + seq![here] + after, reports, uid);
            position(reg, crate::scan::defined_name(file)) matches Some(p) && 0 <= p < reg.len()
                && reg[p].domain == Domain::Gui(uid)
        }),
{
    let here = ScannedDirView { dir, files: earlier + seq![file] + later };
    let found = scanned(before + seq![here] + after, uid).daemons;
    crate::scan::lemma_last_definition_decides(before, dir, earlier, file, later, after, uid);
    crate::merge::lemma_apply_reports_extends(found, reports);
    let p = position(found, crate::scan::defined_name(file)).unwrap();
    assert(crate::merge::same_identity(found[p], registry(before + seq![here] + after, reports, uid)[p]));
}

/// What a query for one service found.
#[derive(Debug)]
pub enum Matched<'a> {
    /// The one service that matches.
    One(&'a Daemon),
    /// All the services that match, where there are several. Which of
    /// them is meant is for the caller to settle.
    Several(Vec<&'a Daemon>),
}

impl<'a> Matched<'a> {
    /// The service that is meant when the caller's choice among several
    /// is `choice`, counted from zero: the one service, or the service at
    /// that place, if there is one.
    pub fn pick(&self, choice: usize) -> (r: Option<&'a Daemon>)
        ensures
            r == (match *self {
                Matched::One(d) => Some(d),
                Matched::Several(all) => if choice < all.len() {
                    Some(all[choice as int])
                } else {
                    None
                },
            }),
    {
        match self {
            Matched::One(d) => Some(*d),
            Matched::Several(all) => if choice < all.len() {
                Some(all[choice])
            } else {
                None
            },
        }
    }
}

/// The question that is put to the user when several services match.
pub fn selection_prompt(query: &str) -> (s: String)
    ensures
        s@ == "Multiple daemons found matching '"@ + query@ + "'. Select one:"@,
{
    let mut s = String::from_str("Multiple daemons found matching '");
    s.append(query);
    s.append("'. Select one:");
    s
}

/// The error for a query that cannot be made into a pattern.
fn invalid_pattern(e: &regex::Error) -> (r: AngelError)
    ensures
        r matches AngelError::System(SystemError::Launchctl(what)) && starts_with(
            what@,
            "Invalid regex: "@,
        ),
{
    let mut what = String::from_str("Invalid regex: ");
    what.append(error_text(e).as_str());
    AngelError::System(SystemError::Launchctl(what))
}

/// Settles what a query found, given all that matched: nothing is an
/// error of the user's, one service is the answer, and several are handed
/// on as they are.
pub fn resolve<'a>(matches: Vec<&'a Daemon>, query: &str) -> (r: Result<Matched<'a>, UserError>)
    ensures
        match r {
            Ok(Matched::One(d)) => matches.len() == 1 && d == matches[0],
            Ok(Matched::Several(all)) => matches.len() >= 2 && all == matches,
            Err(UserError::DaemonNotFound(name)) => matches.len() == 0 && name@ == query@,
            Err(_) => false,
        },
{
    if matches.len() == 0 {
        Err(UserError::DaemonNotFound(String::from_str(query)))
    } else if matches.len() == 1 {
        Ok(Matched::One(matches[0]))
    } else {
        Ok(Matched::Several(matches))
    }
}

/// All known services, each under its name.
pub struct DaemonRegistry {
    daemons: Vec<Daemon>,
}

impl View for DaemonRegistry {
    type V = Seq<DaemonView>;

    closed spec fn view(&self) -> Seq<DaemonView> {
        self.daemons.deep_view()
    }
}

impl DaemonRegistry {
    #[verifier::type_invariant]
    spec fn each_name_once(self) -> bool {
        distinct_names(self.daemons.deep_view())
    }

    /// Builds the registry for the owner `uid` from the definitions found
    /// in the directories, which are gone through in their order, and from
    /// the reports of the domains, which are applied after that, in their
    /// order.
    pub fn new(scanned: Vec<ScannedDir>, reports: Vec<DomainReport>, uid: u32) -> (r: Self)
        ensures
            r@ == registry(scanned.deep_view(), reports.deep_view(), uid),
            distinct_names(r@),
    {
        let ghost dirs = scanned.deep_view();
        let ghost reps = reports.deep_view();
        let mut daemons: Vec<Daemon> = Vec::new();
        let mut linked: Vec<bool> = Vec::new();
        assert(daemons.deep_view() =~= Seq::<DaemonView>::empty());
        for dir in it: scanned
            invariant
                daemons.len() == linked.len(),
                dirs == scanned.deep_view(),
                it.seq() == scanned@,
                (Scan { daemons: daemons.deep_view(), linked: linked@ }) == scan_dirs(
                    Scan::empty(),
                    dirs.take(it.index() as int),
                    uid,
                ),
        {
            proof {
                let k = it.index() as int;
                assert(dirs.take(k + 1).drop_last() =~= dirs.take(k));
            }
            record_dir(&mut daemons, &mut linked, dir, uid);
        }
        assert(dirs.take(scanned.len() as int) =~= dirs);
        let ghost found = daemons.deep_view();
        for report in it: reports
            invariant
                reps == reports.deep_view(),
                it.seq() == reports@,
                daemons.deep_view() == apply_reports(found, reps.take(it.index() as int)),
        {
            proof {
                let k = it.index() as int;
                assert(reps.take(k + 1).drop_last() =~= reps.take(k));
            }
            merge_report(&mut daemons, report);
        }
        assert(reps.take(reports.len() as int) =~= reps);
        proof {
            lemma_scan_dirs_wf(Scan::empty(), dirs, uid);
            lemma_apply_reports_distinct(found, reps);
        }
        DaemonRegistry { daemons }
    }

    /// The domains to ask for a report, for the owner `uid`.
    pub fn domains(uid: u32) -> (r: Vec<Domain>)
        ensures
            r@ == report_domains(uid),
    {
        let mut r: Vec<Domain> = Vec::new();
        r.push(Domain::System);
        r.push(Domain::User(uid));
        r.push(Domain::Gui(uid));
        r
    }

    /// All services, in the order in which they became known.
    pub fn daemons(&self) -> (r: &Vec<Daemon>)
        ensures
            r.deep_view() == self@,
            distinct_names(self@),
    {
        proof {
            use_type_invariant(self);
        }
        &self.daemons
    }

    /// The service named `name`.
    pub fn get(&self, name: &str) -> (r: Option<&Daemon>)
        ensures
            match r {
                Some(d) => position(self@, name@) is Some && d@ == self@[position(
                    self@,
                    name@,
                ).unwrap()],
                None => position(self@, name@) is None,
            },
    {
        let key = String::from_str(name);
        match index_of(&self.daemons, &key) {
            Some(i) => Some(&self.daemons[i]),
            None => None,
        }
    }

    /// The services that are marked in `hits`, which holds one mark for
    /// each service, in the order of the registry.
    pub fn select(&self, hits: &Vec<bool>) -> (r: Vec<&Daemon>)
        requires
            hits.len() == self@.len(),
        ensures
            r.deep_view() == selected(self@, hits@),
    {
        let ghost reg = self@;
        let mut r: Vec<&Daemon> = Vec::new();
        let mut i: usize = 0;
        while i < self.daemons.len()
            invariant
                i <= self.daemons.len(),
                hits.len() == self.daemons.len(),
                reg == self.daemons.deep_view(),
                r.deep_view() == selected_upto(reg, hits@, i as int),
            decreases self.daemons.len() - i,
        {
            if hits[i] {
                r.push(&self.daemons[i]);
            }
            i += 1;
        }
        r
    }

    /// All services whose names the query matches.
    fn find_matches(&self, query: &str, exact: bool) -> (r: Result<Vec<&Daemon>, AngelError>)
        ensures
            match r {
                Ok(found) => found.deep_view() == matching(self@, name_pattern(query@, exact)),
                Err(AngelError::System(SystemError::Launchctl(what))) => starts_with(
                    what@,
                    "Invalid regex: "@,
                ),
                Err(_) => false,
            },
    {
        let pattern = pattern_for(query, exact);
        match search(pattern.as_str(), "") {
            Err(e) => {
                return Err(invalid_pattern(&e));
            },
            Ok(_) => {},
        }
        let ghost reg = self@;
        let mut marks: Vec<bool> = Vec::new();
        let mut i: usize = 0;
        while i < self.daemons.len()
            invariant
                i <= self.daemons.len(),
                reg == self.daemons.deep_view(),
                marks.len() == i,
                forall|k: int| 0 <= k < i ==> marks@[k] == regex_is_match(pattern@, reg[k].name),
            decreases self.daemons.len() - i,
        {
            match search(pattern.as_str(), self.daemons[i].name.as_str()) {
                Ok(found) => {
                    marks.push(found);
                },
                Err(e) => {
                    return Err(invalid_pattern(&e));
                },
            }
            i += 1;
        }
        assert(marks@ =~= hits(reg, pattern@));
        Ok(self.select(&marks))
    }

    /// All services whose names the query matches, in the order of the
    /// registry: with `exact`, the service whose name is the query;
    /// without, those whose names hold the query in upper or lower case.
    /// None is no error; the one error is that of a query that cannot be
    /// made into a pattern.
    pub fn get_matches(&self, query: &str, exact: bool) -> (r: Result<Vec<&Daemon>, AngelError>)
        ensures
            match r {
                Ok(found) => found.deep_view() == matching(self@, name_pattern(query@, exact)),
                Err(AngelError::System(SystemError::Launchctl(what))) => starts_with(
                    what@,
                    "Invalid regex: "@,
                ),
                Err(_) => false,
            },
    {
        self.find_matches(query, exact)
    }

    /// The service that the query stands for. Where several services
    /// match, all of them are returned, and the caller settles which one
    /// is meant; where none matches, the query is returned as not found.
    pub fn get_match(&self, query: &str, exact: bool) -> (r: Result<Matched<'_>, AngelError>)
        ensures
            match r {
                Ok(Matched::One(d)) => matching(self@, name_pattern(query@, exact)) == seq![d@],
                Ok(Matched::Several(all)) => all.len() >= 2 && all.deep_view() == matching(
                    self@,
                    name_pattern(query@, exact),
                ),
                Err(AngelError::User(UserError::DaemonNotFound(name))) => matching(
                    self@,
                    name_pattern(query@, exact),
                ).len() == 0 && name@ == query@,
                Err(AngelError::User(_)) => false,
                Err(AngelError::System(SystemError::Launchctl(what))) => starts_with(
                    what@,
                    "Invalid regex: "@,
                ),
            },
    {
        match self.find_matches(query, exact) {
            Err(e) => Err(e),
            Ok(found) => match resolve(found, query) {
                Ok(m) => Ok(m),
                Err(e) => Err(AngelError::User(e)),
            },
        }
    }
}

} // verus!
