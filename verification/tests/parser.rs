use angel::launchctl::LaunchctlResult;
use angel::parser::Parser;

fn ok(output: &str) -> LaunchctlResult {
    LaunchctlResult { output: output.to_string(), exit_code: Some(0), stderr: String::new() }
}

fn fact(pid: Option<u32>, code: &str, name: &str) -> (Option<u32>, Option<String>, String) {
    (pid, Some(code.to_string()), name.to_string())
}

#[test]
fn domain_line_with_pid_code_and_name() {
    let report = ok("services = {\n123 0 com.example.foo\n}\n");
    assert_eq!(Parser::parse_print_domain(&report), vec![fact(Some(123), "0", "com.example.foo")]);
}

#[test]
fn domain_line_with_two_words_is_skipped_and_parsing_goes_on() {
    let report = ok("services = {\n\t1 0 first\n\t0 broken\n\t2 78 second\n\t}\n");
    assert_eq!(
        Parser::parse_print_domain(&report),
        vec![fact(Some(1), "0", "first"), fact(Some(2), "78", "second")]
    );
    assert_eq!(Parser::skipped_lines(&report), vec!["\t0 broken".to_string()]);
    let report = ok("services = {\nlonely\n \n\n1 0 a.b\ntwo words\r\n}");
    assert_eq!(Parser::skipped_lines(&report), vec!["lonely".to_string(), "two words".to_string()]);
}

#[test]
fn domain_report_as_the_service_manager_prints_it() {
    let text = "system = {\n\ttype = system\n\tservices = {\n\t\t     0      -  \tcom.apple.runningboardd\n\t\t   344      0  \tcom.apple.airportd\n\t\t     0     78  \torg.example.two words\n\t}\n\n\tother = {\n\t\t9 9 not.a.service\n\t}\n}\n";
    assert_eq!(
        Parser::parse_print_domain(&ok(text)),
        vec![
            fact(Some(0), "-", "com.apple.runningboardd"),
            fact(Some(344), "0", "com.apple.airportd"),
            fact(Some(0), "78", "org.example.two words"),
        ]
    );
}

#[test]
fn domain_pid_placeholder_is_absent() {
    let report = ok("services = {\n- 0 idle.service\n+7 -9 plus.service\n4294967296 0 too.big\n}");
    assert_eq!(
        Parser::parse_print_domain(&report),
        vec![fact(None, "0", "idle.service"), fact(Some(7), "-9", "plus.service"), fact(None, "0", "too.big")]
    );
}

#[test]
fn domain_report_of_failed_run_is_empty() {
    let failed = LaunchctlResult {
        output: "services = {\n1 0 a.b\n}\n".to_string(),
        exit_code: Some(1),
        stderr: "Could not find domain".to_string(),
    };
    assert!(Parser::parse_print_domain(&failed).is_empty());
    let killed = LaunchctlResult { output: "services = {\n1 0 a.b\n}\n".to_string(), exit_code: None, stderr: String::new() };
    assert!(Parser::parse_print_domain(&killed).is_empty());
    assert!(Parser::skipped_lines(&failed).is_empty());
}

#[test]
fn domain_report_without_section_is_empty() {
    assert!(Parser::parse_print_domain(&ok("")).is_empty());
    assert!(Parser::parse_print_domain(&ok("1 0 com.example.foo\n")).is_empty());
    assert!(Parser::parse_print_domain(&ok("service = {\n1 0 com.example.foo\n}\n")).is_empty());
}

#[test]
fn domain_section_without_closing_brace_runs_to_the_end() {
    let report = ok("services = {\n1 0 a.b\n2 0 c.d");
    assert_eq!(Parser::parse_print_domain(&report), vec![fact(Some(1), "0", "a.b"), fact(Some(2), "0", "c.d")]);
}

#[test]
fn domain_marker_at_the_very_end_gives_nothing() {
    assert!(Parser::parse_print_domain(&ok("services = {")).is_empty());
    assert!(Parser::parse_print_domain(&ok("services = {\n")).is_empty());
    assert!(Parser::parse_print_domain(&ok("services = {\n}")).is_empty());
    assert!(Parser::parse_print_domain(&ok("services = {}")).is_empty());
}

#[test]
fn domain_section_runs_from_the_marker_to_the_brace() {
    let report = ok("services = {91 0 a.b\n2 0 c.d7}8 0 e.f\n");
    assert_eq!(Parser::parse_print_domain(&report), vec![fact(Some(91), "0", "a.b"), fact(Some(2), "0", "c.d7")]);
    let report = ok("services = {1 0 a.b}");
    assert_eq!(Parser::parse_print_domain(&report), vec![fact(Some(1), "0", "a.b")]);
}

#[test]
fn domain_lines_may_end_in_carriage_returns() {
    let report = ok("services = {\r\n1 0 a.b\r\n\r\n2 0 c.d\r\n}\r\n");
    assert_eq!(Parser::parse_print_domain(&report), vec![fact(Some(1), "0", "a.b"), fact(Some(2), "0", "c.d")]);
    assert!(Parser::skipped_lines(&report).is_empty());
}

#[test]
fn domain_report_with_wide_characters() {
    let report = ok("préambule ✓\nservices = {\n\u{2003}5\u{a0}0\u{3000}café.démon\n}\n");
    assert_eq!(Parser::parse_print_domain(&report), vec![fact(Some(5), "0", "café.démon")]);
}

#[test]
fn service_report_with_all_three_keys() {
    let text = "system/com.apple.airportd = {\n\tactive count = 1\n\tpath = /System/Library/LaunchDaemons/com.apple.airportd.plist\n\tstate = running\n\tpid = 434\n\tlast exit code = (never exited)\n}\n";
    assert_eq!(
        Parser::parse_print_service(&ok(text)),
        Some((
            Some(434),
            Some("(never exited)".to_string()),
            "system/com.apple.airportd".to_string(),
            Some("/System/Library/LaunchDaemons/com.apple.airportd.plist".to_string()),
        ))
    );
}

#[test]
fn service_report_keys_are_optional_and_in_any_order() {
    let text = "gui/501/x.y = {\n  last exit code = 0\n}\n";
    assert_eq!(
        Parser::parse_print_service(&ok(text)),
        Some((None, Some("0".to_string()), "gui/501/x.y".to_string(), None))
    );
    let text = "name only";
    assert_eq!(Parser::parse_print_service(&ok(text)), Some((None, None, "name only".to_string(), None)));
}

#[test]
fn service_report_first_matching_line_decides() {
    let text = "a = {\npid = none\npid = 5\npath =\npath = /x\n}";
    assert_eq!(
        Parser::parse_print_service(&ok(text)),
        Some((None, None, "a".to_string(), Some("".to_string())))
    );
}

#[test]
fn service_report_without_name_or_of_failed_run_is_nothing() {
    assert_eq!(Parser::parse_print_service(&ok("")), None);
    assert_eq!(Parser::parse_print_service(&ok(" = {\npid = 1\n}")), None);
    assert_eq!(Parser::parse_print_service(&ok("   \npid = 1\n")), None);
    let failed = LaunchctlResult { output: "a = {\npid = 1\n}".to_string(), exit_code: Some(113), stderr: String::new() };
    assert_eq!(Parser::parse_print_service(&failed), None);
}
