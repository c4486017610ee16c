//! Taking stock of the definitions found on disk. One service can be
//! defined in several directories; which file then counts as its source
//! is decided here.

use vstd::prelude::*;
use crate::daemon::{PlistDir, PlistDirView};
use crate::names::{distinct_names, index_of, lemma_position, position};
use crate::types::{definition_name, Daemon, DaemonView, Domain, Plist};

verus! {

/// A definition file that was found in a directory and decoded.
#[derive(Debug, Clone)]
pub struct PlistFile {
    pub path: String,
    /// Whether `path` is a symbolic link.
    pub is_symlink: bool,
    pub plist: Plist,
}

/// `PlistFile`, with its path as a sequence of characters.
pub struct PlistFileView {
    pub path: Seq<char>,
    pub is_symlink: bool,
    pub plist: Plist,
}

impl View for PlistFile {
    type V = PlistFileView;

    open spec fn view(&self) -> PlistFileView {
        PlistFileView { path: self.path@, is_symlink: self.is_symlink, plist: self.plist }
    }
}

impl DeepView for PlistFile {
    type V = PlistFileView;

    open spec fn deep_view(&self) -> PlistFileView {
        self@
    }
}

/// A directory and the definition files found in it, in the order in
/// which they were found.
#[derive(Debug, Clone)]
pub struct ScannedDir {
    pub dir: PlistDir,
    pub files: Vec<PlistFile>,
}

/// `ScannedDir`, with its texts as sequences of characters.
pub struct ScannedDirView {
    pub dir: PlistDirView,
    pub files: Seq<PlistFileView>,
}

impl View for ScannedDir {
    type V = ScannedDirView;

    open spec fn view(&self) -> ScannedDirView {
        ScannedDirView { dir: self.dir@, files: self.files.deep_view() }
    }
}

impl DeepView for ScannedDir {
    type V = ScannedDirView;

    open spec fn deep_view(&self) -> ScannedDirView {
        self@
    }
}

/// What a scan has found so far: the services, and for each of them
/// whether its source path is a symbolic link.
pub struct Scan {
    pub daemons: Seq<DaemonView>,
    pub linked: Seq<bool>,
}

impl Scan {
    /// The scan that has found nothing yet.
    pub open spec fn empty() -> Scan {
        Scan { daemons: Seq::empty(), linked: Seq::empty() }
    }

    /// Each service has its mark, and each name one entry.
    pub open spec fn wf(self) -> bool {
        self.daemons.len() == self.linked.len() && distinct_names(self.daemons)
    }
}

/// Whether a newly found file replaces the recorded source of its
/// service. A symbolic link always does. Otherwise a recorded symbolic
/// link stays; otherwise, in a directory that the service manager watches
/// the recorded source stays, and elsewhere the new file replaces it.
pub open spec fn keeps_new(new_is_symlink: bool, recorded_is_symlink: bool, monitored: bool) -> bool {
    if new_is_symlink {
        true
    } else if recorded_is_symlink {
        false
    } else if monitored {
        false
    } else {
        true
    }
}

pub fn prefers_new(new_is_symlink: bool, recorded_is_symlink: bool, monitored: bool) -> (b: bool)
    ensures
        b == keeps_new(new_is_symlink, recorded_is_symlink, monitored),
{
    if new_is_symlink {
        true
    } else if recorded_is_symlink {
        false
    } else if monitored {
        false
    } else {
        true
    }
}

/// The name of the service that `file` defines: the label of the
/// definition, else the stem of the file's name, else `unknown`.
pub open spec fn defined_name(file: PlistFileView) -> Seq<char> {
    definition_name(file.plist.label.deep_view(), Some(file.path))
}

/// The source path of the service that `file` defines, and whether that
/// path is a symbolic link: the file's own path, unless a source is
/// recorded for a service of that name and stays.
pub open spec fn source_of(scan: Scan, dir: PlistDirView, file: PlistFileView) -> (Seq<char>, bool) {
    match position(scan.daemons, defined_name(file)) {
        Some(i) => match scan.daemons[i].source_path {
            Some(recorded) => if keeps_new(
                file.is_symlink,
                scan.linked[i],
                dir.is_system_monitored,
            ) {
                (file.path, file.is_symlink)
            } else {
                (recorded, scan.linked[i])
            },
            None => (file.path, file.is_symlink),
        },
        None => (file.path, file.is_symlink),
    }
}

/// The service that `file`, found in `dir`, defines, when the registry is
/// built for the owner `uid`. Its domain is that of the directory unless
/// the definition's session type says otherwise, and then it is a domain
/// of `uid`.
pub open spec fn defined(scan: Scan, dir: PlistDirView, file: PlistFileView, uid: u32) -> DaemonView {
    DaemonView {
        source_path: Some(source_of(scan, dir, file).0),
        ..Daemon::spec_from_plist(file.plist, Some(file.path), dir.domain, dir.for_use_by, uid)
    }
}

/// The scan after `file`, found in `dir`, was recorded: the service that
/// it defines takes the place of the entry of its name, or is added.
pub open spec fn record(scan: Scan, dir: PlistDirView, file: PlistFileView, uid: u32) -> Scan {
    let d = defined(scan, dir, file, uid);
    let link = source_of(scan, dir, file).1;
    match position(scan.daemons, defined_name(file)) {
        Some(i) => Scan { daemons: scan.daemons.update(i, d), linked: scan.linked.update(i, link) },
        None => Scan { daemons: scan.daemons.push(d), linked: scan.linked.push(link) },
    }
}

/// The scan after the files of one directory were recorded in their
/// order.
pub open spec fn record_all(
    scan: Scan,
    dir: PlistDirView,
    files: Seq<PlistFileView>,
    uid: u32,
) -> Scan
    decreases files.len(),
{
    if files.len() == 0 {
        scan
    } else {
        record(record_all(scan, dir, files.drop_last(), uid), dir, files.last(), uid)
    }
}

/// The scan after the directories were gone through in their order.
pub open spec fn scan_dirs(scan: Scan, dirs: Seq<ScannedDirView>, uid: u32) -> Scan
    decreases dirs.len(),
{
    if dirs.len() == 0 {
        scan
    } else {
        record_all(scan_dirs(scan, dirs.drop_last(), uid), dirs.last().dir, dirs.last().files, uid)
    }
}

/// What is found in the directories, starting from nothing, for the owner
/// `uid`.
pub open spec fn scanned(dirs: Seq<ScannedDirView>, uid: u32) -> Scan {
    scan_dirs(Scan::empty(), dirs, uid)
}

pub proof fn lemma_record_wf(scan: Scan, dir: PlistDirView, file: PlistFileView, uid: u32)
    requires
        scan.wf(),
    ensures
        record(scan, dir, file, uid).wf(),
{
    lemma_position(scan.daemons, defined_name(file));
}

pub proof fn lemma_record_all_wf(
    scan: Scan,
    dir: PlistDirView,
    files: Seq<PlistFileView>,
    uid: u32,
)
    requires
        scan.wf(),
    ensures
        record_all(scan, dir, files, uid).wf(),
    decreases files.len(),
{
    if files.len() > 0 {
        lemma_record_all_wf(scan, dir, files.drop_last(), uid);
        lemma_record_wf(record_all(scan, dir, files.drop_last(), uid), dir, files.last(), uid);
    }
}

/// A scan keeps each name to one entry.
pub proof fn lemma_scan_dirs_wf(scan: Scan, dirs: Seq<ScannedDirView>, uid: u32)
    requires
        scan.wf(),
    ensures
        scan_dirs(scan, dirs, uid).wf(),
    decreases dirs.len(),
{
    if dirs.len() > 0 {
        lemma_scan_dirs_wf(scan, dirs.drop_last(), uid);
        lemma_record_all_wf(
            scan_dirs(scan, dirs.drop_last(), uid),
            dirs.last().dir,
            dirs.last().files,
            uid,
        );
    }
}

/// When a file defines a service whose source is recorded already, one
/// of the two paths survives: the new one if it is a symbolic link; else
/// the recorded one if that is a symbolic link; else the recorded one if
/// the directory is watched by the service manager; else the new one.
/// This holds whether the service is named by a label or by its file.
/// The service keeps its place, and no other service changes.
pub proof fn lemma_collision_precedence(
    scan: Scan,
    dir: PlistDirView,
    file: PlistFileView,
    uid: u32,
    i: int,
)
    requires
        scan.wf(),
        position(scan.daemons, defined_name(file)) == Some(i),
        scan.daemons[i].source_path is Some,
    ensures
        0 <= i < scan.daemons.len(),
        record(scan, dir, file, uid).daemons.len() == scan.daemons.len(),
        position(record(scan, dir, file, uid).daemons, defined_name(file)) == Some(i),
        forall|j: int|
            0 <= j < scan.daemons.len() && j != i ==> record(scan, dir, file, uid).daemons[j]
                == scan.daemons[j],
        file.is_symlink ==> record(scan, dir, file, uid).daemons[i].source_path == Some(
            file.path,
        ),
        !file.is_symlink && scan.linked[i] ==> record(scan, dir, file, uid).daemons[i].source_path
            == scan.daemons[i].source_path,
        !file.is_symlink && !scan.linked[i] && dir.is_system_monitored ==> record(
            scan,
            dir,
            file,
            uid,
        ).daemons[i].source_path == scan.daemons[i].source_path,
        !file.is_symlink && !scan.linked[i] && !dir.is_system_monitored ==> record(
            scan,
            dir,
            file,
            uid,
        ).daemons[i].source_path == Some(file.path),
        record(scan, dir, file, uid).linked[i] == (if keeps_new(
            file.is_symlink,
            scan.linked[i],
            dir.is_system_monitored,
        ) {
            file.is_symlink
        } else {
            scan.linked[i]
        }),
{
    lemma_position(scan.daemons, defined_name(file));
    crate::names::lemma_position_update(
        scan.daemons,
        i,
        defined(scan, dir, file, uid),
        defined_name(file),
    );
}

/// A file that defines a service of which nothing is recorded is the
/// source of that service.
pub proof fn lemma_first_definition(scan: Scan, dir: PlistDirView, file: PlistFileView, uid: u32)
    requires
        scan.wf(),
        position(scan.daemons, defined_name(file)) is None,
    ensures
        record(scan, dir, file, uid).daemons == scan.daemons.push(defined(scan, dir, file, uid)),
        record(scan, dir, file, uid).linked == scan.linked.push(file.is_symlink),
        defined(scan, dir, file, uid).name == defined_name(file),
        defined(scan, dir, file, uid).source_path == Some(file.path),
{
}

/// Of two directories that each hold one definition of the same service,
/// the one that is scanned first gives the source, unless the file in the
/// second is a symbolic link, or the second directory is not watched by
/// the service manager and the first file is no symbolic link.
pub proof fn lemma_second_directory(first: ScannedDirView, second: ScannedDirView, uid: u32)
    requires
        first.files.len() == 1,
        second.files.len() == 1,
        defined_name(first.files[0]) == defined_name(second.files[0]),
    ensures
        scanned(seq![first, second], uid).daemons.len() == 1,
        scanned(seq![first, second], uid).daemons[0].name == defined_name(first.files[0]),
        scanned(seq![first, second], uid).daemons[0].source_path == Some(
            if keeps_new(
                second.files[0].is_symlink,
                first.files[0].is_symlink,
                second.dir.is_system_monitored,
            ) {
                second.files[0].path
            } else {
                first.files[0].path
            },
        ),
{
    let a = first.files[0];
    let b = second.files[0];
    let name = defined_name(a);
    let dirs = seq![first, second];
    let none = Scan::empty();
    assert(dirs.drop_last() =~= seq![first]);
    assert(dirs.last() == second);
    assert(seq![first].drop_last() =~= Seq::<ScannedDirView>::empty());
    assert(seq![first].last() == first);
    assert(scan_dirs(none, Seq::<ScannedDirView>::empty(), uid) == none);
    assert(scan_dirs(none, seq![first], uid) == record_all(none, first.dir, first.files, uid));
    assert(first.files.drop_last() =~= Seq::<PlistFileView>::empty());
    assert(first.files.last() == a);
    assert(record_all(none, first.dir, Seq::<PlistFileView>::empty(), uid) == none);
    let one = record(none, first.dir, a, uid);
    assert(record_all(none, first.dir, first.files, uid) == one);
    lemma_first_definition(none, first.dir, a, uid);
    assert(one.daemons =~= seq![defined(none, first.dir, a, uid)]);
    assert(one.linked =~= seq![a.is_symlink]);
    assert(second.files.drop_last() =~= Seq::<PlistFileView>::empty());
    assert(second.files.last() == b);
    assert(record_all(one, second.dir, Seq::<PlistFileView>::empty(), uid) == one);
    assert(record_all(one, second.dir, second.files, uid) == record(one, second.dir, b, uid));
    assert(scanned(dirs, uid) == record(one, second.dir, b, uid));
    crate::names::lemma_position_is(one.daemons, name, 0);
    lemma_record_wf(none, first.dir, a, uid);
    lemma_collision_precedence(one, second.dir, b, uid, 0);
}

/// A definition whose session type is `Aqua` gives a service of the
/// graphical session of the owner for whom the registry is built,
/// whatever the domain of its directory.
pub proof fn lemma_aqua_definition_is_gui(
    scan: Scan,
    dir: PlistDirView,
    file: PlistFileView,
    uid: u32,
)
    requires
        file.plist.limit_load_to_session_type matches Some(hint) && hint@ == "Aqua"@,
    ensures
        defined(scan, dir, file, uid).domain == Domain::Gui(uid),
{
}

/// Recording a file deletes no service: a name that was known is found
/// where it was.
pub proof fn lemma_record_keeps_names(
    scan: Scan,
    dir: PlistDirView,
    file: PlistFileView,
    uid: u32,
    name: Seq<char>,
)
    requires
        position(scan.daemons, name) is Some,
    ensures
        position(record(scan, dir, file, uid).daemons, name) == position(scan.daemons, name),
{
    let d = defined(scan, dir, file, uid);
    lemma_position(scan.daemons, d.name);
    match position(scan.daemons, d.name) {
        Some(i) => {
            crate::names::lemma_position_update(scan.daemons, i, d, name);
        },
        None => {
            crate::names::lemma_position_push(scan.daemons, d, name);
        },
    }
}

pub proof fn lemma_record_all_keeps_names(
    scan: Scan,
    dir: PlistDirView,
    files: Seq<PlistFileView>,
    uid: u32,
    name: Seq<char>,
)
    requires
        position(scan.daemons, name) is Some,
    ensures
        position(record_all(scan, dir, files, uid).daemons, name) == position(scan.daemons, name),
    decreases files.len(),
{
    if files.len() > 0 {
        lemma_record_all_keeps_names(scan, dir, files.drop_last(), uid, name);
        lemma_record_keeps_names(
            record_all(scan, dir, files.drop_last(), uid),
            dir,
            files.last(),
            uid,
            name,
        );
    }
}

/// A scan deletes no service: a name that was known before the
/// directories were gone through is found where it was.
pub proof fn lemma_scan_keeps_names(
    scan: Scan,
    dirs: Seq<ScannedDirView>,
    uid: u32,
    name: Seq<char>,
)
    requires
        position(scan.daemons, name) is Some,
    ensures
        position(scan_dirs(scan, dirs, uid).daemons, name) == position(scan.daemons, name),
    decreases dirs.len(),
{
    if dirs.len() > 0 {
        lemma_scan_keeps_names(scan, dirs.drop_last(), uid, name);
        lemma_record_all_keeps_names(
            scan_dirs(scan, dirs.drop_last(), uid),
            dirs.last().dir,
            dirs.last().files,
            uid,
            name,
        );
    }
}

/// No file among `files` defines a service named `name`.
pub open spec fn none_defines(files: Seq<PlistFileView>, name: Seq<char>) -> bool {
    forall|k: int| 0 <= k < files.len() ==> defined_name(#[trigger] files[k]) != name
}

/// No directory among `dirs` holds a file that defines a service named
/// `name`.
pub open spec fn no_dir_defines(dirs: Seq<ScannedDirView>, name: Seq<char>) -> bool {
    forall|k: int| 0 <= k < dirs.len() ==> none_defines((#[trigger] dirs[k]).files, name)
}

/// After a file was recorded, the service that it defines is the entry of
/// its name.
pub proof fn lemma_record_lookup(scan: Scan, dir: PlistDirView, file: PlistFileView, uid: u32)
    ensures
        position(record(scan, dir, file, uid).daemons, defined_name(file)) matches Some(p)
            && 0 <= p < record(scan, dir, file, uid).daemons.len() && record(
            scan,
            dir,
            file,
            uid,
        ).daemons[p] == defined(scan, dir, file, uid),
{
    let name = defined_name(file);
    let d = defined(scan, dir, file, uid);
    lemma_position(scan.daemons, name);
    match position(scan.daemons, name) {
        Some(i) => {
            crate::names::lemma_position_update(scan.daemons, i, d, name);
        },
        None => {
            crate::names::lemma_position_push(scan.daemons, d, name);
        },
    }
}

/// Recording a file leaves the services of other names as they are.
pub proof fn lemma_record_other(
    scan: Scan,
    dir: PlistDirView,
    file: PlistFileView,
    uid: u32,
    name: Seq<char>,
)
    requires
        position(scan.daemons, name) is Some,
        defined_name(file) != name,
    ensures
        position(record(scan, dir, file, uid).daemons, name) == position(scan.daemons, name),
        record(scan, dir, file, uid).daemons[position(scan.daemons, name).unwrap()]
            == scan.daemons[position(scan.daemons, name).unwrap()],
{
    lemma_record_keeps_names(scan, dir, file, uid, name);
    lemma_position(scan.daemons, name);
    lemma_position(scan.daemons, defined_name(file));
}

pub proof fn lemma_record_all_other(
    scan: Scan,
    dir: PlistDirView,
    files: Seq<PlistFileView>,
    uid: u32,
    name: Seq<char>,
)
    requires
        position(scan.daemons, name) is Some,
        none_defines(files, name),
    ensures
        position(record_all(scan, dir, files, uid).daemons, name) == position(scan.daemons, name),
        record_all(scan, dir, files, uid).daemons[position(scan.daemons, name).unwrap()]
            == scan.daemons[position(scan.daemons, name).unwrap()],
    decreases files.len(),
{
    if files.len() > 0 {
        assert(none_defines(files.drop_last(), name)) by {
            assert forall|k: int| 0 <= k < files.drop_last().len() implies defined_name(
                #[trigger] files.drop_last()[k],
            ) != name by {
                assert(files.drop_last()[k] == files[k]);
            }
        }
        lemma_record_all_other(scan, dir, files.drop_last(), uid, name);
        assert(defined_name(files.last()) != name) by {
            assert(files.last() == files[files.len() - 1]);
        }
        lemma_record_other(
            record_all(scan, dir, files.drop_last(), uid),
            dir,
            files.last(),
            uid,
            name,
        );
    }
}

/// Directories that do not define a service leave it as it is.
pub proof fn lemma_scan_dirs_other(
    scan: Scan,
    dirs: Seq<ScannedDirView>,
    uid: u32,
    name: Seq<char>,
)
    requires
        position(scan.daemons, name) is Some,
        no_dir_defines(dirs, name),
    ensures
        position(scan_dirs(scan, dirs, uid).daemons, name) == position(scan.daemons, name),
        scan_dirs(scan, dirs, uid).daemons[position(scan.daemons, name).unwrap()]
            == scan.daemons[position(scan.daemons, name).unwrap()],
    decreases dirs.len(),
{
    if dirs.len() > 0 {
        assert(no_dir_defines(dirs.drop_last(), name)) by {
            assert forall|k: int| 0 <= k < dirs.drop_last().len() implies none_defines(
                (#[trigger] dirs.drop_last()[k]).files,
                name,
            ) by {
                assert(dirs.drop_last()[k] == dirs[k]);
            }
        }
        lemma_scan_dirs_other(scan, dirs.drop_last(), uid, name);
        assert(none_defines(dirs.last().files, name)) by {
            assert(dirs.last() == dirs[dirs.len() - 1]);
        }
        lemma_record_all_other(
            scan_dirs(scan, dirs.drop_last(), uid),
            dirs.last().dir,
            dirs.last().files,
            uid,
            name,
        );
    }
}

pub proof fn lemma_record_names(
    scan: Scan,
    dir: PlistDirView,
    file: PlistFileView,
    uid: u32,
    name: Seq<char>,
)
    ensures
        position(record(scan, dir, file, uid).daemons, name) is Some <==> position(
            scan.daemons,
            name,
        ) is Some || defined_name(file) == name,
{
    let d = defined(scan, dir, file, uid);
    lemma_position(scan.daemons, defined_name(file));
    match position(scan.daemons, defined_name(file)) {
        Some(i) => {
            crate::names::lemma_position_update(scan.daemons, i, d, name);
        },
        None => {
            crate::names::lemma_position_push(scan.daemons, d, name);
        },
    }
}

pub proof fn lemma_record_all_names(
    scan: Scan,
    dir: PlistDirView,
    files: Seq<PlistFileView>,
    uid: u32,
    name: Seq<char>,
)
    ensures
        position(record_all(scan, dir, files, uid).daemons, name) is Some <==> position(
            scan.daemons,
            name,
        ) is Some || !none_defines(files, name),
    decreases files.len(),
{
    if files.len() > 0 {
        let init = files.drop_last();
        lemma_record_all_names(scan, dir, init, uid, name);
        lemma_record_names(record_all(scan, dir, init, uid), dir, files.last(), uid, name);
        if !none_defines(init, name) {
            let k = choose|k: int| 0 <= k < init.len() && defined_name(#[trigger] init[k]) == name;
            assert(files[k] == init[k]);
        }
        if defined_name(files.last()) == name {
            assert(files[files.len() - 1] == files.last());
        }
        if !none_defines(files, name) {
            let k = choose|k: int|
                0 <= k < files.len() && defined_name(#[trigger] files[k]) == name;
            if k < init.len() {
                assert(init[k] == files[k]);
            }
        }
    }
}

/// The services that a scan holds are those that were known before and
/// those that a file in one of the directories defines: no others.
pub proof fn lemma_scan_dirs_names(
    scan: Scan,
    dirs: Seq<ScannedDirView>,
    uid: u32,
    name: Seq<char>,
)
    ensures
        position(scan_dirs(scan, dirs, uid).daemons, name) is Some <==> position(
            scan.daemons,
            name,
        ) is Some || !no_dir_defines(dirs, name),
    decreases dirs.len(),
{
    if dirs.len() > 0 {
        let init = dirs.drop_last();
        lemma_scan_dirs_names(scan, init, uid, name);
        lemma_record_all_names(
            scan_dirs(scan, init, uid),
            dirs.last().dir,
            dirs.last().files,
            uid,
            name,
        );
        if !no_dir_defines(init, name) {
            let k = choose|k: int|
                0 <= k < init.len() && !none_defines((#[trigger] init[k]).files, name);
            assert(dirs[k] == init[k]);
        }
        if !none_defines(dirs.last().files, name) {
            assert(dirs[dirs.len() - 1] == dirs.last());
        }
        if !no_dir_defines(dirs, name) {
            let k = choose|k: int|
                0 <= k < dirs.len() && !none_defines((#[trigger] dirs[k]).files, name);
            if k < init.len() {
                assert(init[k] == dirs[k]);
            }
        }
    }
}

/// Files that are recorded one after the other can be recorded in two
/// runs.
pub proof fn lemma_record_all_concat(
    scan: Scan,
    dir: PlistDirView,
    first: Seq<PlistFileView>,
    second: Seq<PlistFileView>,
    uid: u32,
)
    ensures
        record_all(scan, dir, first + second, uid) == record_all(
            record_all(scan, dir, first, uid),
            dir,
            second,
            uid,
        ),
    decreases second.len(),
{
    if second.len() == 0 {
        assert(first + second =~= first);
    } else {
        assert((first + second).drop_last() =~= first + second.drop_last());
        assert((first + second).last() == second.last());
        lemma_record_all_concat(scan, dir, first, second.drop_last(), uid);
    }
}

/// Directories that are gone through one after the other can be gone
/// through in two runs.
pub proof fn lemma_scan_dirs_concat(
    scan: Scan,
    first: Seq<ScannedDirView>,
    second: Seq<ScannedDirView>,
    uid: u32,
)
    ensures
        scan_dirs(scan, first + second, uid) == scan_dirs(
            scan_dirs(scan, first, uid),
            second,
            uid,
        ),
    decreases second.len(),
{
    if second.len() == 0 {
        assert(first + second =~= first);
    } else {
        assert((first + second).drop_last() =~= first + second.drop_last());
        assert((first + second).last() == second.last());
        lemma_scan_dirs_concat(scan, first, second.drop_last(), uid);
    }
}

/// The last file that defines a service decides what the scan holds of
/// it: the service is the one that this file defines, given what was
/// recorded before it. Neither the files that follow it in its directory
/// nor the directories that follow change it.
pub proof fn lemma_last_definition_decides(
    before: Seq<ScannedDirView>,
    dir: PlistDirView,
    earlier: Seq<PlistFileView>,
    file: PlistFileView,
    later: Seq<PlistFileView>,
    after: Seq<ScannedDirView>,
    uid: u32,
)
    requires
        none_defines(later, defined_name(file)),
        no_dir_defines(after, defined_name(file)),
    ensures
        ({
            let here = ScannedDirView { dir, files: earlier + seq![file] + later };
            let found = scanned(before + seq![here] + after, uid).daemons;
            let state = record_all(scanned(before, uid), dir, earlier, uid);
            position(found, defined_name(file)) matches Some(p) && 0 <= p < found.len()
                && found[p] == defined(state, dir, file, uid)
        }),
{
    let name = defined_name(file);
    let here = ScannedDirView { dir, files: earlier + seq![file] + later };
    let none = Scan::empty();
    let start = scanned(before, uid);
    let state = record_all(start, dir, earlier, uid);
    let with_file = record(state, dir, file, uid);
    let in_dir = record_all(with_file, dir, later, uid);
    let found = scanned(before + seq![here] + after, uid);

    assert(record_all(start, dir, earlier + seq![file], uid) == with_file) by {
        assert((earlier + seq![file]).drop_last() =~= earlier);
        assert((earlier + seq![file]).last() == file);
    }
    assert(record_all(start, dir, here.files, uid) == in_dir) by {
        lemma_record_all_concat(start, dir, earlier + seq![file], later, uid);
    }
    assert(scan_dirs(none, before + seq![here], uid) == in_dir) by {
        assert((before + seq![here]).drop_last() =~= before);
        assert((before + seq![here]).last() == here);
    }
    assert(found == scan_dirs(in_dir, after, uid)) by {
        lemma_scan_dirs_concat(none, before + seq![here], after, uid);
    }
    lemma_record_lookup(state, dir, file, uid);
    let p = position(with_file.daemons, name).unwrap();
    lemma_record_all_other(with_file, dir, later, uid, name);
    assert(position(in_dir.daemons, name) == Some(p) && in_dir.daemons[p] == with_file.daemons[p]);
    lemma_scan_dirs_other(in_dir, after, uid, name);
    assert(position(found.daemons, name) == Some(p) && found.daemons[p] == in_dir.daemons[p]);
    lemma_position(found.daemons, name);
}

/// Records one file, for the owner `uid`.
pub fn record_file(
    daemons: &mut Vec<Daemon>,
    linked: &mut Vec<bool>,
    dir: &PlistDir,
    file: PlistFile,
    uid: u32,
)
    requires
        old(daemons).len() == old(linked).len(),
    ensures
        final(daemons).len() == final(linked).len(),
        (Scan { daemons: final(daemons).deep_view(), linked: final(linked)@ }) == record(
            Scan { daemons: old(daemons).deep_view(), linked: old(linked)@ },
            dir@,
            file@,
            uid,
        ),
{
    let ghost scan = Scan { daemons: daemons.deep_view(), linked: linked@ };
    let ghost fv = file@;
    let PlistFile { path, is_symlink, plist } = file;
    let mut daemon = Daemon::from_plist(plist, Some(path), dir.domain, dir.for_use_by, uid);
    let mut link = is_symlink;
    match index_of(daemons, &daemon.name) {
        Some(i) => {
            match &daemons[i].source_path {
                Some(recorded) => {
                    if !prefers_new(is_symlink, linked[i], dir.is_system_monitored) {
                        daemon.source_path = Some(recorded.clone());
                        link = linked[i];
                    }
                },
                None => {},
            }
            assert(daemon@ == defined(scan, dir@, fv, uid));
            daemons[i] = daemon;
            linked[i] = link;
            assert(daemons.deep_view() =~= scan.daemons.update(i as int, defined(scan, dir@, fv, uid)));
        },
        None => {
            daemons.push(daemon);
            linked.push(link);
            assert(daemons.deep_view() =~= scan.daemons.push(defined(scan, dir@, fv, uid)));
        },
    }
}

/// Records the files of one directory, in their order, for the owner
/// `uid`.
pub fn record_dir(
    daemons: &mut Vec<Daemon>,
    linked: &mut Vec<bool>,
    scanned: ScannedDir,
    uid: u32,
)
    requires
        old(daemons).len() == old(linked).len(),
    ensures
        final(daemons).len() == final(linked).len(),
        (Scan { daemons: final(daemons).deep_view(), linked: final(linked)@ }) == record_all(
            Scan { daemons: old(daemons).deep_view(), linked: old(linked)@ },
            scanned@.dir,
            scanned@.files,
            uid,
        ),
{
    let ghost start = Scan { daemons: daemons.deep_view(), linked: linked@ };
    let ghost all = scanned@.files;
    let ScannedDir { dir, files } = scanned;
    for file in it: files
        invariant
            daemons.len() == linked.len(),
            all == files.deep_view(),
            it.seq() == files@,
            (Scan { daemons: daemons.deep_view(), linked: linked@ }) == record_all(
                start,
                dir@,
                all.take(it.index() as int),
                uid,
            ),
    {
        proof {
            let k = it.index() as int;
            assert(all.take(k + 1).drop_last() =~= all.take(k));
        }
        record_file(daemons, linked, &dir, file, uid);
    }
    assert(all.take(files.len() as int) =~= all);
}

} // verus!
