use wingmate::clock::ClockTime;
use wingmate::config::{parse_crontab_line, CronTimeFieldSpec, Crontab};
use wingmate::cron::{
    convert_cron_spec_to_vec, cron_spawn_plan, cron_tick, split_command, validate_entry, CronState,
};
use wingmate::error::{CronConfigError, WingmateInitError};

fn at(minute: u8, hour: u8, day: u8, month: u8, weekday: u8, epoch: i64) -> ClockTime {
    ClockTime { minute, hour, day, month, weekday, epoch_seconds: epoch }
}

fn entry(line: &str) -> Crontab {
    match parse_crontab_line(line) {
        Ok(Some(c)) => c,
        other => panic!("expected entry from {:?}, got {:?}", line, other),
    }
}

#[test]
fn every_minute_entry_matches_any_time() {
    let c = entry("* * * * * /bin/true");
    assert!(c.matches_time(&at(0, 0, 1, 1, 0, 0)));
    assert!(c.matches_time(&at(59, 23, 31, 12, 6, 1_700_000_000)));
}

#[test]
fn exact_fields_must_all_match() {
    let c = entry("30 12 * * * job");
    assert!(c.matches_time(&at(30, 12, 5, 6, 3, 0)));
    assert!(!c.matches_time(&at(31, 12, 5, 6, 3, 0)));
    assert!(!c.matches_time(&at(30, 13, 5, 6, 3, 0)));
}

#[test]
fn month_field_participates_in_matching() {
    let c = entry("* * * 6 * summer-job");
    assert!(c.matches_time(&at(0, 0, 15, 6, 2, 0)));
    assert!(!c.matches_time(&at(0, 0, 15, 7, 2, 0)));
}

#[test]
fn weekday_field_matches_sunday_as_zero() {
    let c = entry("* * * * 0 sunday-job");
    assert!(c.matches_time(&at(0, 0, 15, 6, 0, 0)));
    assert!(!c.matches_time(&at(0, 0, 15, 6, 1, 0)));
}

#[test]
fn clashing_day_fields_are_rejected() {
    let c = entry("0 0 1 * 1 /bin/true");
    assert!(matches!(validate_entry(&c), Err(CronConfigError::ClashingConfig)));
}

#[test]
fn day_of_month_alone_is_accepted() {
    assert!(validate_entry(&entry("0 0 1 * * job")).is_ok());
    assert!(validate_entry(&entry("0 0 * * 1 job")).is_ok());
    assert!(validate_entry(&entry("* * * * * job")).is_ok());
}

#[test]
fn tick_fires_when_entry_matches_and_records_the_time() {
    let c = entry("* * * * * /bin/true");
    let mut st = CronState { last_run: None };
    let t = at(5, 10, 2, 3, 4, 1_000_000);
    assert!(cron_tick(&c, &mut st, Some(t)));
    assert_eq!(st.last_run, Some(1_000_000));
}

#[test]
fn tick_skips_without_a_clock_reading() {
    let c = entry("* * * * * /bin/true");
    let mut st = CronState { last_run: None };
    assert!(!cron_tick(&c, &mut st, None));
    assert_eq!(st.last_run, None);
}

#[test]
fn tick_never_fires_twice_within_a_minute() {
    let c = entry("* * * * * /bin/true");
    let mut st = CronState { last_run: None };
    assert!(cron_tick(&c, &mut st, Some(at(5, 10, 2, 3, 4, 1_000_000))));
    assert!(!cron_tick(&c, &mut st, Some(at(5, 10, 2, 3, 4, 1_000_020))));
    assert!(!cron_tick(&c, &mut st, Some(at(5, 10, 2, 3, 4, 1_000_040))));
    assert_eq!(st.last_run, Some(1_000_000));
    assert!(cron_tick(&c, &mut st, Some(at(6, 10, 2, 3, 4, 1_000_060))));
    assert_eq!(st.last_run, Some(1_000_060));
}

#[test]
fn tick_does_not_fire_when_entry_does_not_match() {
    let c = entry("30 * * * * job");
    let mut st = CronState { last_run: None };
    assert!(!cron_tick(&c, &mut st, Some(at(29, 10, 2, 3, 4, 0))));
    assert_eq!(st.last_run, None);
}

#[test]
fn split_command_drops_empty_segments() {
    assert_eq!(split_command("/bin/echo  hello   world"), vec!["/bin/echo", "hello", "world"]);
    assert_eq!(split_command("  one  "), vec!["one"]);
    assert_eq!(split_command(""), Vec::<String>::new());
    assert_eq!(split_command("    "), Vec::<String>::new());
}

#[test]
fn cron_spawn_plan_keeps_argument_order() {
    let plan = cron_spawn_plan("/bin/echo a b c").expect("plan");
    assert_eq!(plan.program, "/bin/echo");
    assert_eq!(plan.args, vec!["a", "b", "c"]);
}

#[test]
fn cron_spawn_plan_rejects_an_empty_command() {
    match cron_spawn_plan("   ") {
        Err(WingmateInitError::Other { message }) => assert_eq!(message, "   "),
        other => panic!("expected error, got {:?}", other),
    }
}

#[test]
fn field_specs_lay_out_in_match_order() {
    let c = entry("1 2 3 4 5 job");
    let v = convert_cron_spec_to_vec(c);
    assert_eq!(v.len(), 5);
    for (i, f) in v.iter().enumerate() {
        assert_eq!(f.tag, i as i8);
        assert!(matches!(f.field, CronTimeFieldSpec::Exact(n) if n == (i + 1) as u8));
    }
}
