use angel::daemon::{DaemonRegistry, Matched, PlistDir};
use angel::error::{AngelError, UserError};
use angel::merge::DomainReport;
use angel::scan::{prefers_new, PlistFile, ScannedDir};
use angel::types::{Domain, ForWhom, Plist};

fn blank() -> Plist {
    Plist {
        label: None,
        program: None,
        program_arguments: None,
        run_at_load: None,
        keep_alive: None,
        working_directory: None,
        standard_out_path: None,
        standard_error_path: None,
        environment_variables: None,
        start_interval: None,
        start_on_mount: None,
        throttle_interval: None,
        process_type: None,
        session_create: None,
        launch_only_once: None,
        limit_load_to_session_type: None,
    }
}

fn labelled(label: &str) -> Plist {
    let mut p = blank();
    p.label = Some(label.to_string());
    p
}

fn file(path: &str, is_symlink: bool, plist: Plist) -> PlistFile {
    PlistFile { path: path.to_string(), is_symlink, plist }
}

fn dir(path: &str, domain: Domain, for_use_by: ForWhom, monitored: bool, files: Vec<PlistFile>) -> ScannedDir {
    ScannedDir {
        dir: PlistDir { path: path.to_string(), domain, for_use_by, is_system_monitored: monitored },
        files,
    }
}

fn fact(pid: Option<u32>, code: Option<&str>, name: &str) -> (Option<u32>, Option<String>, String) {
    (pid, code.map(|c| c.to_string()), name.to_string())
}

fn report(domain: Domain, facts: Vec<(Option<u32>, Option<String>, String)>) -> DomainReport {
    DomainReport { domain, services: Some(facts) }
}

fn failed(domain: Domain) -> DomainReport {
    DomainReport { domain, services: None }
}

fn build(scanned: Vec<ScannedDir>, reports: Vec<DomainReport>) -> DaemonRegistry {
    DaemonRegistry::new(scanned, reports, 501)
}

fn names(reg: &DaemonRegistry) -> Vec<String> {
    reg.daemons().iter().map(|d| d.name.clone()).collect()
}

fn collide(first_is_link: bool, second_is_link: bool, second_monitored: bool) -> Option<String> {
    let scanned = vec![
        dir("/A", Domain::System, ForWhom::ThirdParty, true, vec![file("/A/X.plist", first_is_link, labelled("X"))]),
        dir("/B", Domain::User(501), ForWhom::Angel, second_monitored, vec![file("/B/X.plist", second_is_link, labelled("X"))]),
    ];
    let reg = build(scanned, vec![]);
    assert_eq!(reg.daemons().len(), 1);
    reg.get("X").unwrap().source_path.clone()
}

#[test]
fn collision_new_symlink_wins() {
    assert_eq!(collide(false, true, true), Some("/B/X.plist".to_string()));
    assert_eq!(collide(false, true, false), Some("/B/X.plist".to_string()));
    assert_eq!(collide(true, true, true), Some("/B/X.plist".to_string()));
    assert_eq!(collide(true, true, false), Some("/B/X.plist".to_string()));
}

#[test]
fn collision_recorded_symlink_stays() {
    assert_eq!(collide(true, false, true), Some("/A/X.plist".to_string()));
    assert_eq!(collide(true, false, false), Some("/A/X.plist".to_string()));
}

#[test]
fn collision_in_monitored_directory_keeps_the_earlier() {
    assert_eq!(collide(false, false, true), Some("/A/X.plist".to_string()));
}

#[test]
fn collision_in_unmonitored_directory_takes_the_new() {
    assert_eq!(collide(false, false, false), Some("/B/X.plist".to_string()));
}

#[test]
fn precedence_table_as_a_function() {
    assert!(prefers_new(true, false, false));
    assert!(prefers_new(true, false, true));
    assert!(prefers_new(true, true, false));
    assert!(prefers_new(true, true, true));
    assert!(!prefers_new(false, true, false));
    assert!(!prefers_new(false, true, true));
    assert!(!prefers_new(false, false, true));
    assert!(prefers_new(false, false, false));
}

#[test]
fn collision_takes_the_rest_from_the_later_definition() {
    let mut first = labelled("X");
    first.program = Some("/bin/first".to_string());
    let mut second = labelled("X");
    second.program = Some("/bin/second".to_string());
    let scanned = vec![
        dir("/A", Domain::System, ForWhom::ThirdParty, true, vec![file("/A/X.plist", false, first)]),
        dir("/B", Domain::User(501), ForWhom::Angel, true, vec![file("/B/X.plist", false, second)]),
    ];
    let reg = build(scanned, vec![]);
    let d = reg.get("X").unwrap();
    assert_eq!(d.source_path, Some("/A/X.plist".to_string()));
    assert_eq!(d.domain, Domain::User(501));
    assert_eq!(d.for_use_by, ForWhom::Angel);
    assert_eq!(d.plist.as_ref().unwrap().program, Some("/bin/second".to_string()));
}

#[test]
fn symlink_mark_follows_the_surviving_path() {
    // the link of the first directory stays; a third plain file in an unmonitored
    // directory still meets a recorded link
    let scanned = vec![
        dir("/A", Domain::System, ForWhom::ThirdParty, true, vec![file("/A/X.plist", true, labelled("X"))]),
        dir("/B", Domain::System, ForWhom::Angel, false, vec![file("/B/X.plist", false, labelled("X"))]),
        dir("/C", Domain::System, ForWhom::User, false, vec![file("/C/X.plist", false, labelled("X"))]),
    ];
    let reg = build(scanned, vec![]);
    assert_eq!(reg.get("X").unwrap().source_path, Some("/A/X.plist".to_string()));
    // a plain file that won in an unmonitored directory is replaced by the next plain one there
    let scanned = vec![
        dir("/A", Domain::System, ForWhom::ThirdParty, true, vec![file("/A/X.plist", false, labelled("X"))]),
        dir("/B", Domain::System, ForWhom::Angel, false, vec![file("/B/X.plist", false, labelled("X"))]),
        dir("/C", Domain::System, ForWhom::User, true, vec![file("/C/X.plist", false, labelled("X"))]),
    ];
    let reg = build(scanned, vec![]);
    assert_eq!(reg.get("X").unwrap().source_path, Some("/B/X.plist".to_string()));
}

#[test]
fn scan_keeps_each_name_once_and_the_order_of_discovery() {
    let mut aqua = labelled("gui.agent");
    aqua.limit_load_to_session_type = Some("Aqua".to_string());
    let scanned = vec![
        dir("/A", Domain::System, ForWhom::Apple, true, vec![
            file("/A/one.plist", false, labelled("one")),
            file("/A/two.plist", false, labelled("two")),
            file("/A/gui.plist", false, aqua),
        ]),
        dir("/B", Domain::User(501), ForWhom::User, true, vec![
            file("/B/two.plist", false, labelled("two")),
            file("/B/nolabel.plist", false, blank()),
            file("/B/three.plist", false, labelled("three")),
        ]),
    ];
    let reg = build(scanned, vec![]);
    assert_eq!(names(&reg), vec!["one", "two", "gui.agent", "nolabel", "three"]);
    assert_eq!(reg.get("gui.agent").unwrap().domain, Domain::Gui(501));
    assert_eq!(reg.get("one").unwrap().domain, Domain::System);
    assert_eq!(reg.get("two").unwrap().source_path, Some("/A/two.plist".to_string()));
    assert_eq!(reg.get("two").unwrap().for_use_by, ForWhom::User);
    assert_eq!(reg.get("nolabel").unwrap().source_path, Some("/B/nolabel.plist".to_string()));
    assert!(reg.get("four").is_none());
}

#[test]
fn session_type_takes_the_owner_for_whom_the_registry_is_built() {
    let hinted = |label: &str, kind: &str| {
        let mut p = labelled(label);
        p.limit_load_to_session_type = Some(kind.to_string());
        p
    };
    let scanned = |owner: u32| {
        vec![
            dir("/Library/LaunchDaemons", Domain::System, ForWhom::ThirdParty, true, vec![
                file("/Library/LaunchDaemons/x.plist", false, hinted("X", "Aqua")),
                file("/Library/LaunchDaemons/b.plist", false, hinted("B", "Background")),
                file("/Library/LaunchDaemons/l.plist", false, hinted("L", "LoginWindow")),
                file("/Library/LaunchDaemons/s.plist", false, hinted("S", "System")),
                file("/Library/LaunchDaemons/o.plist", false, hinted("O", "Other")),
            ]),
            dir("/opt/unknown", Domain::Unknown, ForWhom::User, false, vec![
                file("/opt/unknown/y.plist", false, hinted("Y", "Aqua")),
            ]),
            dir("/opt/gui", Domain::Gui(owner), ForWhom::User, false, vec![
                file("/opt/gui/z.plist", false, hinted("Z", "System")),
                file("/opt/gui/plain.plist", false, labelled("plain")),
            ]),
        ]
    };
    let reg = DaemonRegistry::new(scanned(501), vec![report(Domain::System, vec![fact(Some(9), Some("0"), "X")])], 501);
    assert_eq!(reg.get("X").unwrap().domain, Domain::Gui(501));
    assert_eq!(reg.get("X").unwrap().pid, Some(9));
    assert_eq!(reg.get("B").unwrap().domain, Domain::User(501));
    assert_eq!(reg.get("L").unwrap().domain, Domain::User(501));
    assert_eq!(reg.get("S").unwrap().domain, Domain::System);
    assert_eq!(reg.get("O").unwrap().domain, Domain::System);
    assert_eq!(reg.get("Y").unwrap().domain, Domain::Gui(501));
    assert_eq!(reg.get("Z").unwrap().domain, Domain::System);
    assert_eq!(reg.get("plain").unwrap().domain, Domain::Gui(501));
    let reg = DaemonRegistry::new(scanned(0), vec![], 0);
    assert_eq!(reg.get("X").unwrap().domain, Domain::Gui(0));
    assert_eq!(reg.get("B").unwrap().domain, Domain::User(0));
}

#[test]
fn collision_of_definitions_without_label_follows_the_same_rule() {
    let two = |first_is_link: bool, second_is_link: bool, monitored: bool| {
        let reg = build(
            vec![
                dir("/x", Domain::System, ForWhom::ThirdParty, true, vec![file("/x/a.plist", first_is_link, blank())]),
                dir("/y", Domain::System, ForWhom::ThirdParty, monitored, vec![file("/y/a.plist", second_is_link, blank())]),
            ],
            vec![],
        );
        assert_eq!(names(&reg), vec!["a"]);
        reg.get("a").unwrap().source_path.clone().unwrap()
    };
    assert_eq!(two(false, false, true), "/x/a.plist");
    assert_eq!(two(false, false, false), "/y/a.plist");
    assert_eq!(two(true, false, true), "/x/a.plist");
    assert_eq!(two(true, false, false), "/x/a.plist");
    assert_eq!(two(false, true, true), "/y/a.plist");
    assert_eq!(two(true, true, false), "/y/a.plist");
}

#[test]
fn collision_between_a_label_and_a_file_name() {
    // the label of the second definition is the name that the first has from its file
    let reg = build(
        vec![
            dir("/x", Domain::System, ForWhom::ThirdParty, true, vec![file("/x/a.plist", false, blank())]),
            dir("/y", Domain::User(501), ForWhom::User, true, vec![file("/y/other.plist", false, labelled("a"))]),
        ],
        vec![],
    );
    assert_eq!(names(&reg), vec!["a"]);
    let d = reg.get("a").unwrap();
    assert_eq!(d.source_path, Some("/x/a.plist".to_string()));
    assert_eq!(d.domain, Domain::User(501));
    assert_eq!(d.plist.as_ref().unwrap().label, Some("a".to_string()));
    // and the other way round: the name stays that of the new file
    let reg = build(
        vec![
            dir("/x", Domain::System, ForWhom::ThirdParty, true, vec![file("/x/other.plist", false, labelled("a"))]),
            dir("/y", Domain::User(501), ForWhom::User, true, vec![file("/y/a.plist", false, blank())]),
        ],
        vec![],
    );
    assert_eq!(names(&reg), vec!["a"]);
    assert_eq!(reg.get("a").unwrap().source_path, Some("/x/other.plist".to_string()));
}

#[test]
fn aqua_definition_in_a_user_directory_is_gui_of_that_owner() {
    let mut aqua = labelled("gui.agent");
    aqua.limit_load_to_session_type = Some("Aqua".to_string());
    let scanned = vec![dir("/B", Domain::User(501), ForWhom::User, true, vec![file("/B/g.plist", false, aqua)])];
    let reg = build(scanned, vec![]);
    assert_eq!(reg.get("gui.agent").unwrap().domain, Domain::Gui(501));
}

#[test]
fn runtime_only_vendor_service_is_synthesized() {
    let reg = build(vec![], vec![report(Domain::Gui(501), vec![fact(Some(77), Some("0"), "com.apple.something")])]);
    let d = reg.get("com.apple.something").unwrap();
    assert_eq!(d.source_path, None);
    assert_eq!(d.for_use_by, ForWhom::Apple);
    assert_eq!(d.domain, Domain::Gui(501));
    assert_eq!(d.pid, Some(77));
    assert_eq!(d.last_exit_code, Some("0".to_string()));
    assert!(d.plist.is_none());
}

#[test]
fn runtime_only_other_service_is_third_party() {
    let reg = build(vec![], vec![report(Domain::System, vec![fact(None, Some("-"), "org.example.thing"), fact(None, None, "com.appl.e")])]);
    let d = reg.get("org.example.thing").unwrap();
    assert_eq!(d.source_path, None);
    assert_eq!(d.for_use_by, ForWhom::ThirdParty);
    assert_eq!(d.domain, Domain::System);
    assert_eq!(d.pid, None);
    assert_eq!(reg.get("com.appl.e").unwrap().for_use_by, ForWhom::ThirdParty);
}

#[test]
fn runtime_fact_updates_a_known_service_in_place() {
    let scanned = vec![dir("/A", Domain::System, ForWhom::ThirdParty, true, vec![
        file("/A/a.plist", false, labelled("a")),
        file("/A/b.plist", false, labelled("b")),
    ])];
    let reports = vec![
        report(Domain::Gui(501), vec![fact(Some(5), Some("1"), "b"), fact(Some(6), Some("0"), "c")]),
        report(Domain::User(501), vec![fact(None, Some("9"), "b")]),
    ];
    let reg = build(scanned, reports);
    assert_eq!(names(&reg), vec!["a", "b", "c"]);
    let b = reg.get("b").unwrap();
    assert_eq!(b.pid, None);
    assert_eq!(b.last_exit_code, Some("9".to_string()));
    assert_eq!(b.domain, Domain::System);
    assert_eq!(b.for_use_by, ForWhom::ThirdParty);
    assert_eq!(b.source_path, Some("/A/b.plist".to_string()));
    assert!(b.plist.is_some());
    let a = reg.get("a").unwrap();
    assert_eq!(a.pid, None);
    assert_eq!(a.last_exit_code, None);
    assert_eq!(reg.get("c").unwrap().domain, Domain::Gui(501));
}

#[test]
fn failed_domain_query_leaves_the_rest() {
    let scanned = || vec![dir("/A", Domain::System, ForWhom::ThirdParty, true, vec![file("/A/a.plist", false, labelled("a"))])];
    let system = || report(Domain::System, vec![fact(Some(1), Some("0"), "a"), fact(Some(2), Some("0"), "sys.only")]);
    let gui = || report(Domain::Gui(501), vec![fact(Some(3), Some("0"), "gui.only")]);
    let with_failure = build(scanned(), vec![system(), failed(Domain::User(501)), gui()]);
    let without = build(scanned(), vec![system(), gui()]);
    assert_eq!(names(&with_failure), vec!["a", "sys.only", "gui.only"]);
    assert_eq!(names(&with_failure), names(&without));
    assert_eq!(with_failure.get("a").unwrap().pid, Some(1));
    assert_eq!(with_failure.get("gui.only").unwrap().pid, Some(3));
    let all_failed = build(scanned(), vec![failed(Domain::System), failed(Domain::User(501)), failed(Domain::Gui(501))]);
    assert_eq!(names(&all_failed), vec!["a"]);
}

#[test]
fn domains_that_are_asked_for_reports() {
    assert_eq!(DaemonRegistry::domains(501), vec![Domain::System, Domain::User(501), Domain::Gui(501)]);
}

fn sample() -> DaemonRegistry {
    build(
        vec![],
        vec![report(Domain::System, vec![fact(None, None, "Foo"), fact(None, None, "foobar"), fact(None, None, "baz")])],
    )
}

#[test]
fn substring_query_is_ambiguous_not_resolved() {
    let reg = sample();
    match reg.get_match("foo", false) {
        Ok(Matched::Several(all)) => {
            let got: Vec<&str> = all.iter().map(|d| d.name.as_str()).collect();
            assert_eq!(got, vec!["Foo", "foobar"]);
        }
        other => panic!("{:?}", other),
    }
    let all = reg.get_matches("foo", false).unwrap();
    let got: Vec<&str> = all.iter().map(|d| d.name.as_str()).collect();
    assert_eq!(got, vec!["Foo", "foobar"]);
}

#[test]
fn exact_query_matches_the_literal_name_only() {
    let reg = sample();
    match reg.get_match("foo", true) {
        Err(AngelError::User(UserError::DaemonNotFound(name))) => assert_eq!(name, "foo"),
        other => panic!("{:?}", other),
    }
    assert!(reg.get_matches("foo", true).unwrap().is_empty());
    match reg.get_match("Foo", true) {
        Ok(Matched::One(d)) => assert_eq!(d.name, "Foo"),
        other => panic!("{:?}", other),
    }
    match reg.get_match("foobar", true) {
        Ok(Matched::One(d)) => assert_eq!(d.name, "foobar"),
        other => panic!("{:?}", other),
    }
}

#[test]
fn query_with_one_match_is_resolved() {
    let reg = sample();
    match reg.get_match("OBA", false) {
        Ok(Matched::One(d)) => assert_eq!(d.name, "foobar"),
        other => panic!("{:?}", other),
    }
    match reg.get_match("az", false) {
        Ok(Matched::One(d)) => assert_eq!(d.name, "baz"),
        other => panic!("{:?}", other),
    }
}

#[test]
fn query_without_match() {
    let reg = sample();
    match reg.get_match("nothing", false) {
        Err(AngelError::User(UserError::DaemonNotFound(name))) => assert_eq!(name, "nothing"),
        other => panic!("{:?}", other),
    }
    assert!(reg.get_matches("nothing", false).unwrap().is_empty());
    let empty = build(vec![], vec![]);
    assert!(empty.get_matches("", false).unwrap().is_empty());
    assert!(matches!(empty.get_match("", true), Err(AngelError::User(UserError::DaemonNotFound(_)))));
}

#[test]
fn empty_query_matches_every_service() {
    let reg = sample();
    assert_eq!(reg.get_matches("", false).unwrap().len(), 3);
    assert!(reg.get_matches("", true).unwrap().is_empty());
}

#[test]
fn query_is_never_read_as_a_pattern() {
    let reg = build(
        vec![],
        vec![report(Domain::System, vec![
            fact(None, None, "a.b"),
            fact(None, None, "axb"),
            fact(None, None, "a+b"),
            fact(None, None, "aab"),
            fact(None, None, "(x|y)"),
            fact(None, None, "x"),
            fact(None, None, "back\\slash"),
            fact(None, None, "^start$"),
        ])],
    );
    let found = |q: &str, exact: bool| -> Vec<String> {
        reg.get_matches(q, exact).unwrap().iter().map(|d| d.name.clone()).collect()
    };
    assert_eq!(found("a.b", false), vec!["a.b"]);
    assert_eq!(found("A.B", false), vec!["a.b"]);
    assert_eq!(found("a.b", true), vec!["a.b"]);
    assert_eq!(found("a+b", false), vec!["a+b"]);
    assert_eq!(found(".", false), vec!["a.b"]);
    assert_eq!(found("x|y", false), vec!["(x|y)"]);
    assert_eq!(found("(x|y)", true), vec!["(x|y)"]);
    assert_eq!(found("\\", false), vec!["back\\slash"]);
    assert_eq!(found("^", false), vec!["^start$"]);
    assert_eq!(found("$", false), vec!["^start$"]);
    assert_eq!(found("^start$", true), vec!["^start$"]);
    assert_eq!(found("[a-z]", false), Vec::<String>::new());
    assert_eq!(found("x", true), vec!["x"]);
}

#[test]
fn exact_query_is_case_sensitive_and_whole() {
    let reg = build(
        vec![],
        vec![report(Domain::System, vec![fact(None, None, "foo"), fact(None, None, "FOO"), fact(None, None, "foo\n"), fact(None, None, "xfoo")])],
    );
    match reg.get_match("foo", true) {
        Ok(Matched::One(d)) => assert_eq!(d.name, "foo"),
        other => panic!("{:?}", other),
    }
    assert_eq!(reg.get_matches("foo", false).unwrap().len(), 4);
}

#[test]
fn select_takes_the_marked_services() {
    let reg = sample();
    let picked = reg.select(&vec![true, false, true]);
    let got: Vec<&str> = picked.iter().map(|d| d.name.as_str()).collect();
    assert_eq!(got, vec!["Foo", "baz"]);
    assert!(reg.select(&vec![false, false, false]).is_empty());
}

#[test]
fn query_too_long_for_a_pattern_is_a_system_error() {
    let query = "é".repeat(100_000);
    let expected = "Invalid regex: Compiled regex exceeds size limit of 10485760 bytes.";
    match sample().get_matches(&query, false) {
        Err(AngelError::System(angel::error::SystemError::Launchctl(what))) => assert_eq!(what, expected),
        other => panic!("{:?}", other.map(|v| v.len())),
    }
    let empty = build(vec![], vec![]);
    match empty.get_match(&query, false) {
        Err(AngelError::System(angel::error::SystemError::Launchctl(what))) => assert_eq!(what, expected),
        other => panic!("{:?}", other),
    }
}

#[test]
fn pattern_of_a_query() {
    use_pattern("foo", true, "^foo$");
    use_pattern("foo", false, "(?i)foo");
    use_pattern("", true, "^$");
    use_pattern("", false, "(?i)");
    use_pattern("a.b", true, "^a\\.b$");
    use_pattern("com.apple.*", false, "(?i)com\\.apple\\.\\*");
    use_pattern("\\.+*?()|[]{}^$#&-~", true, "^\\\\\\.\\+\\*\\?\\(\\)\\|\\[\\]\\{\\}\\^\\$\\#\\&\\-\\~$");
    use_pattern("a b/c%d!e\"f'g,h:i;j<k=l>m@n_o`p", false, "(?i)a b/c%d!e\"f'g,h:i;j<k=l>m@n_o`p");
    use_pattern("é✓", true, "^é✓$");
}

fn use_pattern(query: &str, exact: bool, expected: &str) {
    assert_eq!(angel::pattern::pattern_for(query, exact), expected);
}

#[test]
fn pattern_escapes_exactly_the_characters_with_a_meaning() {
    let meta = "\\.+*?()|[]{}^$#&-~";
    let mut c = 0u32;
    while c < 0x3000 {
        if let Some(ch) = char::from_u32(c) {
            let query = ch.to_string();
            let expected = if meta.contains(ch) { format!("^\\{}$", ch) } else { format!("^{}$", ch) };
            assert_eq!(angel::pattern::pattern_for(&query, true), expected, "U+{:04X}", c);
        }
        c += 1;
    }
}
