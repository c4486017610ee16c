use angel::cli::{Commands, InstallArgs, ListArgs, NameArgs, Signal, StartArgs, StopArgs};
use angel::commands::install::{
    check_domain_selection, domain_choices, make_target_path, needs_system_permissions,
    running_instance, service_label, InstallStrategy, SYSTEM_FILE_MODE,
};
use angel::commands::list::{header, is_listed, row, SortBy};
use angel::commands::status::extract_status;
use angel::commands::uninstall::{get_source_path, needs_report};
use angel::error::{AngelError, SystemError, UserError};
use angel::styles::{display_path, domain_shade, status_shade, Shade};
use angel::types::{Daemon, Domain, ForWhom, Plist};

fn blank() -> Plist {
    Plist {
        label: None,
        program: None,
        program_arguments: None,
        run_at_load: None,
        keep_alive: None,
        working_directory: None,
        standard_out_path: None,
        standard_error_path: None,
        environment_variables: None,
        start_interval: None,
        start_on_mount: None,
        throttle_interval: None,
        process_type: None,
        session_create: None,
        launch_only_once: None,
        limit_load_to_session_type: None,
    }
}

fn daemon(name: &str, path: Option<&str>, for_use_by: ForWhom, pid: Option<u32>) -> Daemon {
    Daemon::new(name.to_string(), path.map(|p| p.to_string()), Domain::User(501), for_use_by, None, pid, None)
}

fn names(name: &str, verbose: bool) -> NameArgs {
    NameArgs { name: name.to_string(), exact: false, verbose }
}

#[test]
fn signal_names() {
    assert_eq!(Signal::sigterm.to_string(), "sigterm");
    assert_eq!(Signal::sigkill.to_string(), "sigkill");
    assert_eq!(Signal::sighup.to_string(), "sighup");
    assert_eq!(Signal::sigint.to_string(), "sigint");
}

#[test]
fn verbosity_of_each_command() {
    for v in [true, false] {
        assert_eq!(Commands::Restart(names("x", v)).verbose(), v);
        assert_eq!(Commands::Status(names("x", v)).verbose(), v);
        assert_eq!(Commands::Plist(names("x", v)).verbose(), v);
        assert_eq!(Commands::Uninstall(names("x", v)).verbose(), v);
        assert_eq!(Commands::Bootstrap(names("x", v)).verbose(), v);
        assert_eq!(Commands::Bootout(names("x", v)).verbose(), v);
        assert_eq!(Commands::Enable(names("x", v)).verbose(), v);
        assert_eq!(Commands::Disable(names("x", v)).verbose(), v);
        assert_eq!(Commands::Start(StartArgs { name: "x".to_string(), exact: true, verbose: v, kill: false }).verbose(), v);
    }
    assert!(!Commands::Version.verbose());
    assert!(!Commands::Stop(StopArgs { name: "x".to_string(), exact: false, signal: Signal::sigkill, force: true }).verbose());
    assert!(!Commands::Install(InstallArgs { path: "p".to_string(), strategy: InstallStrategy::Symlink }).verbose());
    let list = ListArgs { pattern: None, exact: false, show_apple: true, show_dynamic: true, show_idle: true, sort_by: SortBy::Name };
    assert!(!Commands::List(list).verbose());
}

#[test]
fn target_path_by_domain() {
    assert_eq!(make_target_path(&Domain::System, "com.example.foo", Some("/Users/me")).unwrap(), "/Library/LaunchDaemons/com.example.foo.plist");
    assert_eq!(make_target_path(&Domain::System, "com.example.foo", None).unwrap(), "/Library/LaunchDaemons/com.example.foo.plist");
    assert_eq!(make_target_path(&Domain::Gui(501), "com.example.foo", Some("/Users/me")).unwrap(), "/Users/me/Library/LaunchAgents/com.example.foo.plist");
    assert_eq!(make_target_path(&Domain::User(501), "com.example.foo.plist", Some("/Users/me/")).unwrap(), "/Users/me/Library/LaunchAgents/com.example.foo.plist");
    assert_eq!(make_target_path(&Domain::Unknown, ".plist", Some("/h")).unwrap(), "/h/Library/LaunchAgents/.plist");
    assert_eq!(make_target_path(&Domain::System, "plist", None).unwrap(), "/Library/LaunchDaemons/plist.plist");
}

#[test]
fn target_path_without_home_is_an_invalid_argument() {
    match make_target_path(&Domain::Gui(501), "x", None) {
        Err(UserError::InvalidArgument(what)) => assert_eq!(what, "Could not determine user home directory"),
        other => panic!("{:?}", other),
    }
}

#[test]
fn system_permissions_for_links_into_the_system_domain() {
    assert!(needs_system_permissions(&Domain::System, &InstallStrategy::Symlink));
    assert!(!needs_system_permissions(&Domain::System, &InstallStrategy::Copy));
    assert!(!needs_system_permissions(&Domain::System, &InstallStrategy::Move));
    assert!(!needs_system_permissions(&Domain::Gui(0), &InstallStrategy::Symlink));
    assert!(!needs_system_permissions(&Domain::User(0), &InstallStrategy::Symlink));
    assert_eq!(SYSTEM_FILE_MODE, 420);
}

#[test]
fn domains_offered_for_installing() {
    assert_eq!(domain_choices(501), vec![Domain::Gui(501), Domain::System, Domain::User(501)]);
}

#[test]
fn label_is_needed_for_installing() {
    let mut p = blank();
    match service_label(&p) {
        Err(UserError::InvalidArgument(what)) => assert_eq!(what, "No label found in plist"),
        other => panic!("{:?}", other),
    }
    p.label = Some("a.b".to_string());
    assert_eq!(service_label(&p).unwrap(), "a.b");
}

#[test]
fn selected_domain_is_checked_against_definition_and_rights() {
    let mut p = blank();
    assert_eq!(check_domain_selection(&p, 501, Domain::Gui(501), false).unwrap(), Domain::Gui(501));
    assert_eq!(check_domain_selection(&p, 501, Domain::System, true).unwrap(), Domain::System);
    assert!(matches!(check_domain_selection(&p, 501, Domain::System, false), Err(UserError::RequiresRoot)));
    p.limit_load_to_session_type = Some("Aqua".to_string());
    assert_eq!(check_domain_selection(&p, 501, Domain::Gui(501), false).unwrap(), Domain::Gui(501));
    match check_domain_selection(&p, 501, Domain::User(501), false) {
        Err(UserError::InvalidArgument(what)) => assert_eq!(
            what,
            "The domain written in the plist is `gui/501` does not match the selected domain `user/501`."
        ),
        other => panic!("{:?}", other),
    }
    match check_domain_selection(&p, 501, Domain::System, false) {
        Err(UserError::InvalidArgument(what)) => assert_eq!(
            what,
            "The domain written in the plist is `gui/501` does not match the selected domain `system`."
        ),
        other => panic!("{:?}", other),
    }
}

#[test]
fn running_instance_has_to_make_way() {
    let running = daemon("a", None, ForWhom::User, Some(5));
    let idle = daemon("a", None, ForWhom::User, None);
    assert_eq!(running_instance(Ok(&running)).unwrap().map(|d| d.pid), Some(Some(5)));
    assert!(running_instance(Ok(&idle)).unwrap().is_none());
    assert!(running_instance(Err(AngelError::User(UserError::DaemonNotFound("a".to_string())))).unwrap().is_none());
    assert!(matches!(
        running_instance(Err(AngelError::User(UserError::RequiresRoot))),
        Err(AngelError::User(UserError::RequiresRoot))
    ));
    assert!(matches!(
        running_instance(Err(AngelError::System(SystemError::Launchctl("x".to_string())))),
        Err(AngelError::System(SystemError::Launchctl(_)))
    ));
}

#[test]
fn list_shows_what_was_asked_for() {
    let args = |apple, dynamic, idle| ListArgs { pattern: None, exact: false, show_apple: apple, show_dynamic: dynamic, show_idle: idle, sort_by: SortBy::Name };
    let plain = daemon("a", Some("/p"), ForWhom::User, Some(1));
    let vendor = daemon("a", Some("/p"), ForWhom::Apple, Some(1));
    let dynamic = daemon("a", None, ForWhom::ThirdParty, Some(1));
    let idle = daemon("a", Some("/p"), ForWhom::Angel, None);
    assert!(is_listed(&plain, &args(false, false, false)));
    assert!(!is_listed(&vendor, &args(false, true, true)));
    assert!(is_listed(&vendor, &args(true, false, false)));
    assert!(!is_listed(&dynamic, &args(true, false, true)));
    assert!(is_listed(&dynamic, &args(false, true, false)));
    assert!(!is_listed(&idle, &args(true, true, false)));
    assert!(is_listed(&idle, &args(false, false, true)));
    let all = daemon("a", None, ForWhom::Apple, None);
    assert!(is_listed(&all, &args(true, true, true)));
    assert!(!is_listed(&all, &args(true, true, false)));
}

#[test]
fn list_rows() {
    assert_eq!(header(), vec!["EC", "PID", "Domain", "Name", "Source"]);
    let d = Daemon::new("a.b".to_string(), Some("/p/a.b.plist".to_string()), Domain::Gui(501), ForWhom::User, None, Some(344), Some("0".to_string()));
    assert_eq!(row(&d, "~/p/a.b.plist".to_string()), vec!["0", "344", "gui/501", "a.b", "~/p/a.b.plist"]);
    let d = Daemon::new("c".to_string(), None, Domain::System, ForWhom::Apple, None, None, None);
    assert_eq!(row(&d, "-".to_string()), vec!["-", "-", "system", "c", "-"]);
}

#[test]
fn status_is_the_first_state_that_is_named() {
    assert_eq!(extract_status("\tstate = running\n"), "running");
    assert_eq!(extract_status("state = stopped"), "stopped");
    assert_eq!(extract_status("x\nstate = launched\ny"), "launched");
    assert_eq!(extract_status("state = exited"), "exited");
    assert_eq!(extract_status("state = exited\nstate = running"), "running");
    assert_eq!(extract_status("state = launched state = stopped"), "stopped");
    assert_eq!(extract_status("state = waiting"), "unknown");
    assert_eq!(extract_status("state=running"), "unknown");
    assert_eq!(extract_status(""), "unknown");
}

#[test]
fn source_path_from_registry_or_report() {
    let known = daemon("a", Some("/known.plist"), ForWhom::User, None);
    let unknown = daemon("a", None, ForWhom::User, None);
    assert!(!needs_report(&known));
    assert!(needs_report(&unknown));
    let detail = |p: Option<&str>| Some((None, None, "a".to_string(), p.map(|s| s.to_string())));
    assert_eq!(get_source_path(&known, None).unwrap(), "/known.plist");
    assert_eq!(get_source_path(&known, detail(Some("/reported.plist"))).unwrap(), "/known.plist");
    assert_eq!(get_source_path(&unknown, detail(Some("/reported.plist"))).unwrap(), "/reported.plist");
    for d in [detail(None), None] {
        match get_source_path(&unknown, d) {
            Err(UserError::InvalidArgument(what)) => assert_eq!(what, "Service does not have an installed plist file"),
            other => panic!("{:?}", other),
        }
    }
}

#[test]
fn path_of_a_service_as_it_is_shown() {
    let home = Some("/Users/me");
    let d = daemon("a", Some("/Users/me/Library/LaunchAgents/a.plist"), ForWhom::User, None);
    assert_eq!(display_path(&d, false, None, home), "~/Library/LaunchAgents/a.plist");
    assert_eq!(display_path(&d, true, None, home), "~/Library/LaunchAgents/a.plist");
    assert_eq!(display_path(&d, false, Some("/Users/me/dev/a.plist"), home), "  ~/Library/LaunchAgents/a.plist");
    assert_eq!(display_path(&d, true, Some("/Users/me/dev/a.plist"), home), "  ~/Library/LaunchAgents/a.plist → ~/dev/a.plist");
    assert_eq!(display_path(&d, true, Some(""), home), "  ~/Library/LaunchAgents/a.plist → ");
    assert_eq!(display_path(&d, true, Some("/opt/a.plist"), None), "  /Users/me/Library/LaunchAgents/a.plist → /opt/a.plist");
    let none = daemon("a", None, ForWhom::User, None);
    assert_eq!(display_path(&none, true, Some("/x"), home), "-");
    assert_eq!(display_path(&none, false, None, None), "-");
}

#[test]
fn owner_under_sudo_is_the_caller() {
    assert_eq!(angel::angel::owner(Some("501"), 0), 501);
    assert_eq!(angel::angel::owner(Some("0"), 502), 0);
    assert_eq!(angel::angel::owner(Some(""), 502), 502);
    assert_eq!(angel::angel::owner(Some("me"), 502), 502);
    assert_eq!(angel::angel::owner(Some("-1"), 502), 502);
    assert_eq!(angel::angel::owner(None, 502), 502);
    assert!(angel::angel::is_root(0));
    assert!(!angel::angel::is_root(501));
}

#[test]
fn shades_of_states_and_domains() {
    assert_eq!(status_shade("running", None), Shade::Green);
    assert_eq!(status_shade("not running", None), Shade::White);
    assert_eq!(status_shade("stopped", Some(Shade::Cyan)), Shade::Red);
    assert_eq!(status_shade("launched", None), Shade::Yellow);
    assert_eq!(status_shade("exited", None), Shade::Blue);
    assert_eq!(status_shade("unknown", None), Shade::Magenta);
    assert_eq!(status_shade("unknown", Some(Shade::Cyan)), Shade::Cyan);
    assert_eq!(status_shade("Running", None), Shade::Magenta);
    assert_eq!(domain_shade(&Domain::System), Some(Shade::Magenta));
    assert_eq!(domain_shade(&Domain::User(1)), Some(Shade::Green));
    assert_eq!(domain_shade(&Domain::Gui(1)), Some(Shade::Cyan));
    assert_eq!(domain_shade(&Domain::Unknown), None);
}
