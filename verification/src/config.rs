//! What the user has configured.

use vstd::prelude::*;
use crate::path::{join, join_path};
use crate::text::{chars_of, str_eq, substring};
use crate::types::Domain;

verus! {

/// The user's configuration. Every part of it is optional.
#[derive(Debug, Clone)]
pub struct Config {
    pub directories: Option<Vec<DirectoryConfig>>,
    pub colors: Option<Colors>,
}

/// A directory of definitions that the user added, and the domain that
/// its services belong to.
#[derive(Debug, Clone)]
pub struct DirectoryConfig {
    pub path: String,
    pub domain: Domain,
}

/// The colours of the user's choice.
#[derive(Debug, Clone)]
pub struct Colors {
    pub background: Option<String>,
    pub foreground: Option<String>,
    pub title: Option<String>,
    pub section_header: Option<String>,
    pub command: Option<String>,
    pub argument: Option<String>,
    pub flag: Option<String>,
    pub table_border: Option<String>,
}

/// `DirectoryConfig`, with its path as a sequence of characters.
pub struct DirectoryView {
    pub path: Seq<char>,
    pub domain: Domain,
}

impl View for DirectoryConfig {
    type V = DirectoryView;

    open spec fn view(&self) -> DirectoryView {
        DirectoryView { path: self.path@, domain: self.domain }
    }
}

impl DeepView for DirectoryConfig {
    type V = DirectoryView;

    open spec fn deep_view(&self) -> DirectoryView {
        self@
    }
}

/// The word that stands for a domain in the configuration file.
pub open spec fn domain_tag(domain: Domain) -> Seq<char> {
    match domain {
        Domain::System => "system"@,
        Domain::User(_) => "user"@,
        Domain::Gui(_) => "gui"@,
        Domain::Unknown => "unknown"@,
    }
}

/// The domain that a word of the configuration file stands for. The owner
/// is not known yet: it is zero until the directory is put to use.
pub open spec fn tagged_domain(tag: Seq<char>) -> Domain {
    if tag == "system"@ {
        Domain::System
    } else if tag == "user"@ {
        Domain::User(0)
    } else if tag == "gui"@ {
        Domain::Gui(0)
    } else {
        Domain::Unknown
    }
}

pub fn serialize(domain: &Domain) -> (tag: String)
    ensures
        tag@ == domain_tag(*domain),
{
    match domain {
        Domain::System => String::from_str("system"),
        Domain::User(_) => String::from_str("user"),
        Domain::Gui(_) => String::from_str("gui"),
        Domain::Unknown => String::from_str("unknown"),
    }
}

pub fn deserialize(tag: &str) -> (domain: Domain)
    ensures
        domain == tagged_domain(tag@),
{
    if str_eq(tag, "system") {
        Domain::System
    } else if str_eq(tag, "user") {
        Domain::User(0)
    } else if str_eq(tag, "gui") {
        Domain::Gui(0)
    } else {
        Domain::Unknown
    }
}

/// `path` with a `~` at its start replaced by `home`.
pub open spec fn expanded(path: Seq<char>, home: Seq<char>) -> Seq<char> {
    if path.len() > 0 && path[0] == '~' {
        home + path.skip(1)
    } else {
        path
    }
}

pub fn expand_home(path: &str, home: &str) -> (r: String)
    ensures
        r@ == expanded(path@, home@),
{
    let v = chars_of(path);
    if v.len() > 0 && v[0] == '~' {
        let mut r = String::from_str(home);
        r.append(substring(path, 1, v.len()).as_str());
        r
    } else {
        String::from_str(path)
    }
}

/// Whether a configuration file is looked for at all: not without a home
/// directory, and not for the superuser.
pub open spec fn reads_file(home: Seq<char>) -> bool {
    home.len() > 0 && home != "/var/root"@
}

/// Where the configuration file may lie, in the order of preference.
/// `config_dir` is the platform's directory for configuration, if it has
/// one.
pub open spec fn candidate_paths(home: Seq<char>, config_dir: Option<Seq<char>>) -> Seq<Seq<char>> {
    let first = seq![join(home, ".angelrc"@)];
    let last = seq![join(join(join(home, ".config"@), "angel"@), ".angelrc"@)];
    match config_dir {
        Some(dir) => first + seq![join(join(dir, "angel"@), ".angelrc"@)] + last,
        None => first + last,
    }
}

impl Config {
    /// The configuration of a user who has configured nothing.
    pub fn empty() -> (c: Config)
        ensures
            c.directories is None,
            c.colors is None,
    {
        Config { directories: None, colors: None }
    }

    /// The directories that the user added, with their paths as sequences
    /// of characters; none where none are configured.
    pub open spec fn directory_views(&self) -> Seq<DirectoryView> {
        match self.directories {
            Some(dirs) => dirs.deep_view(),
            None => Seq::empty(),
        }
    }

    /// The directories that the user added; none where none are
    /// configured.
    pub fn get_directories(&self) -> (dirs: Vec<DirectoryConfig>)
        ensures
            dirs.deep_view() == self.directory_views(),
    {
        let mut out: Vec<DirectoryConfig> = Vec::new();
        match &self.directories {
            Some(dirs) => {
                let mut i: usize = 0;
                while i < dirs.len()
                    invariant
                        i <= dirs.len(),
                        out.deep_view() == dirs.deep_view().take(i as int),
                    decreases dirs.len() - i,
                {
                    let ghost before = out.deep_view();
                    let d = DirectoryConfig { path: dirs[i].path.clone(), domain: dirs[i].domain };
                    out.push(d);
                    i += 1;
                    assert(out.deep_view() =~= before.push(d@));
                }
            },
            None => {
            },
        }
        out
    }

    pub fn reads_file(home: &str) -> (b: bool)
        ensures
            b == reads_file(home@),
    {
        chars_of(home).len() > 0 && !str_eq(home, "/var/root")
    }

    pub fn candidate_paths(home: &str, config_dir: Option<&str>) -> (paths: Vec<String>)
        ensures
            paths.deep_view() == candidate_paths(
                home@,
                match config_dir {
                    Some(dir) => Some(dir@),
                    None => None,
                },
            ),
    {
        let mut paths: Vec<String> = Vec::new();
        paths.push(join_path(home, ".angelrc"));
        match config_dir {
            Some(dir) => {
                paths.push(join_path(join_path(dir, "angel").as_str(), ".angelrc"));
            },
            None => {},
        }
        paths.push(
            join_path(
                join_path(join_path(home, ".config").as_str(), "angel").as_str(),
                ".angelrc",
            ),
        );
        paths
    }

    /// The configuration that is in force for a user whose home directory
    /// is `home`, when `found` is what the first configuration file that
    /// exists holds: the paths of its directories get their `~` expanded.
    /// No file is read for a user for whom `reads_file` is false.
    pub fn load(home: &str, found: Option<Config>) -> (c: Config)
        ensures
            match found {
                Some(f) if reads_file(home@) => {
                    &&& c.colors == f.colors
                    &&& c.directories is Some <==> f.directories is Some
                    &&& c.directory_views().len() == f.directory_views().len()
                    &&& forall|i: int|
                        0 <= i < c.directory_views().len() ==> #[trigger] c.directory_views()[i]
                            == (DirectoryView {
                            path: expanded(f.directory_views()[i].path, home@),
                            domain: f.directory_views()[i].domain,
                        })
                },
                _ => c.directories is None && c.colors is None,
            },
    {
        if !Config::reads_file(home) {
            return Config::empty();
        }
        match found {
            None => Config::empty(),
            Some(f) => {
                let Config { directories, colors } = f;
                match directories {
                    None => Config { directories: None, colors },
                    Some(dirs) => {
                        let mut out: Vec<DirectoryConfig> = Vec::new();
                        let mut i: usize = 0;
                        while i < dirs.len()
                            invariant
                                i <= dirs.len(),
                                out.len() == i,
                                forall|k: int|
                                    0 <= k < i ==> #[trigger] out.deep_view()[k] == (DirectoryView {
                                        path: expanded(dirs.deep_view()[k].path, home@),
                                        domain: dirs.deep_view()[k].domain,
                                    }),
                            decreases dirs.len() - i,
                        {
                            let ghost before = out.deep_view();
                            let d = DirectoryConfig {
                                path: expand_home(dirs[i].path.as_str(), home),
                                domain: dirs[i].domain,
                            };
                            out.push(d);
                            assert forall|k: int| 0 <= k < i + 1 implies #[trigger] out.deep_view()[k]
                                == (DirectoryView {
                                path: expanded(dirs.deep_view()[k].path, home@),
                                domain: dirs.deep_view()[k].domain,
                            }) by {
                                if k < i {
                                    assert(out.deep_view()[k] == before[k]);
                                }
                            }
                            i += 1;
                        }
                        Config { directories: Some(out), colors }
                    },
                }
            },
        }
    }
}

} // verus!
