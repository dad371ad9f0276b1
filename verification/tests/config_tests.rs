use wingmate::config::{
    parse_cron_field, parse_crontab, parse_crontab_line, search_paths_from_env, shell_candidates,
    shell_name_from_env, split_colon_list, Command, Config, CronTimeFieldSpec, Crontab, DirListing,
};
use wingmate::error::{CronFieldError, CronParseError, WingmateInitError};

fn field(s: &str, max: u8) -> Result<CronTimeFieldSpec, CronFieldError> {
    parse_cron_field(s, max)
}

#[test]
fn star_parses_to_any() {
    assert!(matches!(field("*", 60), Ok(CronTimeFieldSpec::Any)));
}

#[test]
fn exact_number_parses() {
    match field("5", 60) {
        Ok(CronTimeFieldSpec::Exact(n)) => assert_eq!(n, 5),
        other => panic!("expected Exact(5), got {:?}", other),
    }
}

#[test]
fn exact_with_leading_zeros_parses() {
    match field("0005", 60) {
        Ok(CronTimeFieldSpec::Exact(n)) => assert_eq!(n, 5),
        other => panic!("expected Exact(5), got {:?}", other),
    }
}

#[test]
fn step_expands_to_multiples_below_modulus() {
    match field("*/15", 60) {
        Ok(CronTimeFieldSpec::MultiOccurrence(v)) => assert_eq!(v, vec![15, 30, 45]),
        other => panic!("expected multiples, got {:?}", other),
    }
    match field("*/7", 24) {
        Ok(CronTimeFieldSpec::MultiOccurrence(v)) => assert_eq!(v, vec![7, 14, 21]),
        other => panic!("expected multiples, got {:?}", other),
    }
}

#[test]
fn step_of_zero_is_rejected() {
    assert!(matches!(field("*/0", 60), Err(CronFieldError::OutOfRange)));
}

#[test]
fn step_at_or_above_modulus_is_rejected() {
    assert!(matches!(field("*/60", 60), Err(CronFieldError::OutOfRange)));
    assert!(matches!(field("*/99", 60), Err(CronFieldError::OutOfRange)));
}

#[test]
fn comma_list_parses_in_order() {
    match field("3,1,2", 60) {
        Ok(CronTimeFieldSpec::MultiOccurrence(v)) => assert_eq!(v, vec![3, 1, 2]),
        other => panic!("expected list, got {:?}", other),
    }
}

#[test]
fn comma_list_with_out_of_range_value_is_rejected() {
    assert!(matches!(field("5,60", 60), Err(CronFieldError::OutOfRange)));
}

#[test]
fn comma_list_with_empty_piece_is_rejected() {
    assert!(matches!(field("1,", 60), Err(CronFieldError::BadNumber)));
    assert!(matches!(field("1,,2", 60), Err(CronFieldError::BadNumber)));
}

#[test]
fn value_at_modulus_is_rejected() {
    assert!(matches!(field("60", 60), Err(CronFieldError::OutOfRange)));
    assert!(matches!(field("24", 24), Err(CronFieldError::OutOfRange)));
    assert!(matches!(field("31", 31), Err(CronFieldError::OutOfRange)));
    assert!(matches!(field("12", 12), Err(CronFieldError::OutOfRange)));
    assert!(matches!(field("7", 7), Err(CronFieldError::OutOfRange)));
}

#[test]
fn garbage_fields_are_rejected() {
    assert!(matches!(field("abc", 60), Err(CronFieldError::BadNumber)));
    assert!(matches!(field("", 60), Err(CronFieldError::BadNumber)));
    assert!(matches!(field("+5", 60), Err(CronFieldError::BadNumber)));
    assert!(matches!(field("300", 60), Err(CronFieldError::BadNumber)));
    assert!(matches!(field("*x", 60), Err(CronFieldError::BadNumber)));
}

#[test]
fn is_match_on_each_variant() {
    assert!(CronTimeFieldSpec::Any.is_match(0));
    assert!(CronTimeFieldSpec::Any.is_match(59));
    assert!(CronTimeFieldSpec::Exact(7).is_match(7));
    assert!(!CronTimeFieldSpec::Exact(7).is_match(8));
    let m = CronTimeFieldSpec::MultiOccurrence(vec![15, 30, 45]);
    assert!(m.is_match(30));
    assert!(!m.is_match(20));
}

#[test]
fn parsed_step_matches_exactly_its_multiples() {
    match field("*/15", 60) {
        Ok(sp) => {
            for v in 0u8..=255u8 {
                let expected = v % 15 == 0 && v >= 15 && v < 60;
                assert_eq!(sp.is_match(v), expected, "value {}", v);
            }
        },
        other => panic!("expected parse, got {:?}", other),
    }
}

#[test]
fn field_spec_equality_is_order_sensitive() {
    let a = CronTimeFieldSpec::MultiOccurrence(vec![1, 2]);
    let b = CronTimeFieldSpec::MultiOccurrence(vec![2, 1]);
    let c = CronTimeFieldSpec::MultiOccurrence(vec![1, 2]);
    assert!(a != b);
    assert!(a == c);
    assert!(CronTimeFieldSpec::Any == CronTimeFieldSpec::Any);
    assert!(CronTimeFieldSpec::Any != CronTimeFieldSpec::Exact(0));
    assert!(CronTimeFieldSpec::Exact(3) == CronTimeFieldSpec::Exact(3));
    assert!(CronTimeFieldSpec::Exact(3) != CronTimeFieldSpec::Exact(4));
    assert!(a != CronTimeFieldSpec::MultiOccurrence(vec![1, 2, 3]));
}

#[test]
fn simple_line_parses() {
    match parse_crontab_line("* * * * * /bin/true") {
        Ok(Some(c)) => {
            assert!(matches!(c.minute, CronTimeFieldSpec::Any));
            assert!(matches!(c.hour, CronTimeFieldSpec::Any));
            assert!(matches!(c.day_of_month, CronTimeFieldSpec::Any));
            assert!(matches!(c.month, CronTimeFieldSpec::Any));
            assert!(matches!(c.day_of_week, CronTimeFieldSpec::Any));
            assert_eq!(c.command, "/bin/true");
        },
        other => panic!("expected entry, got {:?}", other),
    }
}

#[test]
fn line_command_keeps_inner_spaces_and_loses_trailing_ones() {
    match parse_crontab_line("  0  12 * * *\techo hello   world  \t ") {
        Ok(Some(c)) => {
            assert!(matches!(c.minute, CronTimeFieldSpec::Exact(0)));
            assert!(matches!(c.hour, CronTimeFieldSpec::Exact(12)));
            assert_eq!(c.command, "echo hello   world");
        },
        other => panic!("expected entry, got {:?}", other),
    }
}

#[test]
fn blank_lines_are_skipped() {
    assert!(matches!(parse_crontab_line(""), Ok(None)));
    assert!(matches!(parse_crontab_line("   \t  "), Ok(None)));
}

#[test]
fn short_line_is_a_syntax_error() {
    match parse_crontab_line("* * *") {
        Err(CronParseError::InvalidSyntax(l)) => assert_eq!(l, "* * *"),
        other => panic!("expected syntax error, got {:?}", other),
    }
}

#[test]
fn five_fields_without_command_is_a_syntax_error() {
    assert!(matches!(parse_crontab_line("* * * * *"), Err(CronParseError::InvalidSyntax(_))));
    assert!(matches!(parse_crontab_line("* * * * *   "), Err(CronParseError::InvalidSyntax(_))));
}

#[test]
fn bad_minute_field_reports_its_name_and_text() {
    match parse_crontab_line("61 * * * * cmd") {
        Err(CronParseError::Parse { source, cron_line, matched, field_name }) => {
            assert!(matches!(source, CronFieldError::OutOfRange));
            assert_eq!(cron_line, "61 * * * * cmd");
            assert_eq!(matched, "61");
            assert_eq!(field_name, "minute");
        },
        other => panic!("expected parse error, got {:?}", other),
    }
}

#[test]
fn bad_day_of_week_field_reports_its_name() {
    match parse_crontab_line("* * * * 9 cmd") {
        Err(CronParseError::Parse { field_name, matched, .. }) => {
            assert_eq!(field_name, "day of week");
            assert_eq!(matched, "9");
        },
        other => panic!("expected parse error, got {:?}", other),
    }
}

#[test]
fn first_bad_field_wins() {
    match parse_crontab_line("61 99 * * 9 cmd") {
        Err(CronParseError::Parse { field_name, .. }) => assert_eq!(field_name, "minute"),
        other => panic!("expected parse error, got {:?}", other),
    }
}

#[test]
fn whole_file_parses_with_blank_lines() {
    let lines: Vec<String> = vec![
        String::from(""),
        String::from("* * * * * /bin/true"),
        String::from("   "),
        String::from("0 0 * * * /bin/echo midnight"),
    ];
    let entries = parse_crontab(&lines).expect("file should parse");
    assert_eq!(entries.len(), 2);
    assert_eq!(entries[0].command, "/bin/true");
    assert_eq!(entries[1].command, "/bin/echo midnight");
}

#[test]
fn whole_file_reports_first_bad_line() {
    let lines: Vec<String> =
        vec![String::from("* * * * * ok"), String::from("nope"), String::from("also bad")];
    match parse_crontab(&lines) {
        Err(CronParseError::InvalidSyntax(l)) => assert_eq!(l, "nope"),
        other => panic!("expected syntax error, got {:?}", other),
    }
}

fn listing(services: Vec<(&str, bool)>, crontab: Option<Vec<&str>>) -> DirListing {
    DirListing {
        services: services.into_iter().map(|(p, x)| (String::from(p), x)).collect(),
        crontab_lines: crontab.map(|ls| ls.into_iter().map(String::from).collect()),
    }
}

#[test]
fn assemble_rejects_empty_search_list() {
    assert!(matches!(
        Config::assemble(vec![], None),
        Err(WingmateInitError::InvalidConfigSearchPath)
    ));
}

#[test]
fn assemble_reports_nothing_found() {
    let l = listing(vec![], Some(vec!["", "   "]));
    assert!(matches!(Config::assemble(vec![l], None), Err(WingmateInitError::NoServiceOrCron)));
}

#[test]
fn assemble_classifies_services_by_executability() {
    let l = listing(vec![("/etc/wingmate/services/a", true), ("/etc/wingmate/services/b", false)], None);
    let cfg = Config::assemble(vec![l], None).expect("should assemble");
    let svcs = cfg.get_service_iter();
    assert_eq!(svcs.len(), 2);
    match &svcs[0] {
        Command::Direct(p) => assert_eq!(p, "/etc/wingmate/services/a"),
        other => panic!("expected direct, got {:?}", other),
    }
    match &svcs[1] {
        Command::ShellPrefixed(p) => assert_eq!(p, "/etc/wingmate/services/b"),
        other => panic!("expected shell-prefixed, got {:?}", other),
    }
}

#[test]
fn assemble_takes_first_directory_with_content() {
    let empty = listing(vec![], None);
    let with_cron = listing(vec![], Some(vec!["* * * * * /bin/true"]));
    let with_svc = listing(vec![("/x/s", true)], None);
    let cfg = Config::assemble(vec![empty, with_cron, with_svc], None).expect("should assemble");
    assert_eq!(cfg.get_service_iter().len(), 0);
    assert_eq!(cfg.get_cron_iter().len(), 1);
    assert_eq!(cfg.get_cron_iter()[0].command, "/bin/true");
}

#[test]
fn assemble_propagates_crontab_errors() {
    let bad = listing(vec![], Some(vec!["broken"]));
    match Config::assemble(vec![bad], None) {
        Err(WingmateInitError::Cron { source: CronParseError::InvalidSyntax(l) }) => {
            assert_eq!(l, "broken")
        },
        other => panic!("expected cron error, got {:?}", other),
    }
}

#[test]
fn assemble_keeps_the_shell_it_was_given() {
    let l = listing(vec![("/x/s", true)], None);
    let cfg = Config::assemble(vec![l], Some(String::from("/bin/sh"))).expect("should assemble");
    assert_eq!(cfg.get_shell(), Some(String::from("/bin/sh")));
    let l2 = listing(vec![("/x/s", true)], None);
    let cfg2 = Config::assemble(vec![l2], None).expect("should assemble");
    assert_eq!(cfg2.get_shell(), None);
}

#[test]
fn colon_lists_split_like_the_path_variable() {
    assert_eq!(split_colon_list("/a:/b:/c"), vec!["/a", "/b", "/c"]);
    assert_eq!(split_colon_list("/a"), vec!["/a"]);
    assert_eq!(split_colon_list(""), vec![""]);
    assert_eq!(split_colon_list("/a::/b"), vec!["/a", "", "/b"]);
}

#[test]
fn search_paths_default_when_variable_is_absent() {
    assert_eq!(search_paths_from_env(None), vec!["/etc/wingmate"]);
    assert_eq!(search_paths_from_env(Some("/one:/two")), vec!["/one", "/two"]);
}

#[test]
fn shell_name_defaults_to_sh() {
    assert_eq!(shell_name_from_env(None), "sh");
    assert_eq!(shell_name_from_env(Some("bash")), "bash");
}

#[test]
fn shell_candidates_join_path_entries_with_the_name() {
    assert_eq!(
        shell_candidates("/usr/bin:/bin", "sh"),
        vec!["/usr/bin/sh", "/bin/sh"]
    );
}

#[test]
fn clashing_entry_scenario_parses_but_fails_validation() {
    let c: Crontab = match parse_crontab_line("0 0 1 * 1 /bin/true") {
        Ok(Some(c)) => c,
        other => panic!("expected entry, got {:?}", other),
    };
    assert!(wingmate::cron::validate_entry(&c).is_err());
}
