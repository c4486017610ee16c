use angel::error::{AngelError, SystemError, UserError};
use angel::launchctl::{
    bootout, bootstrap, bootstrap_hint, disable, enable, kickstart, kickstart_kill, kill,
    launchctl_exec, print, service_target, LaunchctlResult, PrintTarget,
};
use angel::output::{context, format_error_log_line, format_log_line, init, is_verbose};
use angel::types::{Daemon, Domain, ForWhom};

fn daemon(name: &str, domain: Domain, path: Option<&str>) -> Daemon {
    Daemon::new(name.to_string(), path.map(|p| p.to_string()), domain, ForWhom::User, None, None, None)
}

fn result(output: &str, code: Option<i32>) -> LaunchctlResult {
    LaunchctlResult { output: output.to_string(), exit_code: code, stderr: String::new() }
}

#[test]
fn success_is_exit_status_zero() {
    assert!(result("", Some(0)).success());
    assert!(!result("", Some(1)).success());
    assert!(!result("", Some(-1)).success());
    assert!(!result("", None).success());
}

#[test]
fn target_is_domain_slash_name() {
    assert_eq!(service_target(&daemon("com.example.foo", Domain::System, None)), "system/com.example.foo");
    assert_eq!(service_target(&daemon("com.example.foo", Domain::User(501), None)), "user/501/com.example.foo");
    assert_eq!(service_target(&daemon("x", Domain::Gui(0), None)), "gui/0/x");
    assert_eq!(service_target(&daemon("", Domain::Unknown, None)), "Unknown/");
}

#[test]
fn print_target_by_service_or_by_name() {
    let d = daemon("a.b", Domain::Gui(501), None);
    assert_eq!(PrintTarget::ByService(&d).target_str(), "gui/501/a.b");
    assert_eq!(PrintTarget::ByName("user/501").target_str(), "user/501");
    assert_eq!(print(&PrintTarget::ByService(&d)), vec!["print", "gui/501/a.b"]);
    assert_eq!(print(&PrintTarget::ByName("system")), vec!["print", "system"]);
}

#[test]
fn bootstrap_names_domain_and_path() {
    let d = daemon("a.b", Domain::Gui(501), Some("/Users/me/Library/LaunchAgents/a.b.plist"));
    assert_eq!(bootstrap(&d).unwrap(), vec!["bootstrap", "gui/501", "/Users/me/Library/LaunchAgents/a.b.plist"]);
}

#[test]
fn bootstrap_without_source_is_a_system_error() {
    let d = daemon("a.b", Domain::Gui(501), None);
    match bootstrap(&d) {
        Err(AngelError::System(SystemError::Launchctl(what))) => {
            assert_eq!(what, "Cannot bootstrap daemon without source path")
        }
        other => panic!("{:?}", other),
    }
}

#[test]
fn bootstrap_hint_for_the_user_domain_only() {
    let hint = "The user domain is for background sessions. If this isn't a background session, use the GUI domain.";
    let out = result("Bootstrap failed: 5: Input/output error\n", Some(5));
    assert_eq!(bootstrap_hint(&daemon("a", Domain::User(501), None), &out), Some(hint.to_string()));
    assert_eq!(bootstrap_hint(&daemon("a", Domain::Gui(501), None), &out), None);
    assert_eq!(bootstrap_hint(&daemon("a", Domain::System, None), &out), None);
    assert_eq!(bootstrap_hint(&daemon("a", Domain::User(501), None), &result("fine", Some(0))), None);
}

#[test]
fn verbs_and_their_words() {
    let d = daemon("a.b", Domain::System, None);
    assert_eq!(bootout(&d), vec!["bootout", "system/a.b"]);
    assert_eq!(enable(&d), vec!["enable", "system/a.b"]);
    assert_eq!(disable(&d), vec!["disable", "system/a.b"]);
    assert_eq!(kickstart(&d), vec!["kickstart", "system/a.b"]);
    assert_eq!(kickstart_kill(&d), vec!["kickstart", "-k", "system/a.b"]);
    assert_eq!(kill(&d, "sigterm"), vec!["kill", "sigterm", "system/a.b"]);
    assert_eq!(kill(&d, "9"), vec!["kill", "9", "system/a.b"]);
}

#[test]
fn invocation_goes_through_sudo_for_the_superuser() {
    let words = vec!["print".to_string(), "system".to_string()];
    let plain = launchctl_exec(words.clone(), false);
    assert_eq!(plain.program, "launchctl");
    assert_eq!(plain.args, vec!["print", "system"]);
    assert_eq!(plain.command_line(), "launchctl print system");
    let elevated = launchctl_exec(words, true);
    assert_eq!(elevated.program, "sudo");
    assert_eq!(elevated.args, vec!["launchctl", "print", "system"]);
    assert_eq!(elevated.command_line(), "sudo launchctl print system");
    let bare = launchctl_exec(vec![], false);
    assert_eq!(bare.command_line(), "launchctl ");
}

#[test]
fn output_context_carries_verbosity() {
    assert!(is_verbose(&init(true)));
    assert!(!is_verbose(&init(false)));
    assert!(!is_verbose(&context()));
}

#[test]
fn log_lines_of_both_streams() {
    assert_eq!(format_log_line("CMD", "launchctl print system"), "CMD launchctl print system");
    assert_eq!(format_log_line("", ""), " ");
    assert_eq!(format_error_log_line("WARN", "careful"), "WARN   careful");
    assert_eq!(format_error_log_line("ERROR", "bad"), "ERROR  bad");
    assert_eq!(format_error_log_line("", "x"), "       x");
    assert_eq!(format_error_log_line("1234567", "x"), "1234567x");
    assert_eq!(format_error_log_line("12345678", "x"), "12345678x");
    assert_eq!(format_error_log_line("é", "x"), format!("{:<7}{}", "é", "x"));
}

#[test]
fn error_texts() {
    assert_eq!(UserError::DaemonNotFound("foo".to_string()).message(), "Daemon not found: foo");
    assert_eq!(UserError::RequiresRoot.message(), "Sudo is required to perform this action");
    assert_eq!(UserError::InvalidArgument("no".to_string()).message(), "Invalid argument: no");
    assert_eq!(SystemError::Launchctl("boom".to_string()).message(), "Launchctl error: boom");
    let u = AngelError::from(UserError::RequiresRoot);
    assert!(u.is_user());
    assert_eq!(u.message(), "Sudo is required to perform this action");
    let s = AngelError::from(SystemError::Launchctl("x".to_string()));
    assert!(!s.is_user());
    assert_eq!(s.message(), "Launchctl error: x");
}
