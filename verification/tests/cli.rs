use worktime::cli::{
    CorrectionKind, MainMenuCommand, ReportKind, WorktimeCommand, parse_hhmm,
    validate_correction_time,
};
use worktime::db::{WorktimeDatabase, get_test_worktime_db};
use worktime::err::CommandError;
use worktime::render::{display_datetime, display_time};
use worktime::time::{Date, Timestamp};

fn ts(year: u16, month: u8, day: u8, hour: u8, minute: u8, second: u8) -> Timestamp {
    Timestamp { date: Date { year, month, day }, hour, minute, second }
}

fn run(db: &mut WorktimeDatabase, cmd: WorktimeCommand, now: Timestamp) -> Result<String, CommandError> {
    cmd.execute(db, now)
}

#[test]
fn should_record_workday() {
    let mut db = get_test_worktime_db();

    run(&mut db, WorktimeCommand::Start, ts(2025, 7, 1, 9, 0, 0)).unwrap();
    run(&mut db, WorktimeCommand::Stop, ts(2025, 7, 1, 15, 0, 0)).unwrap();
    let report = run(
        &mut db,
        WorktimeCommand::Report { kind: ReportKind::Day },
        ts(2025, 7, 1, 15, 0, 0),
    )
    .unwrap();

    assert!(report.ends_with("6.00h"), "expected '{report}' to end with '6.00h'");
    assert_eq!(report, "Day's balance: 6.00h");
}

#[test]
fn should_record_workweek() {
    let mut db = get_test_worktime_db();

    // 2025-07-07 is a Monday; five consecutive weekdays of eight hours.
    for day_offset in 0..5u8 {
        run(&mut db, WorktimeCommand::Start, ts(2025, 7, 7 + day_offset, 9, 0, 0)).unwrap();
        run(&mut db, WorktimeCommand::Stop, ts(2025, 7, 7 + day_offset, 17, 0, 0)).unwrap();
    }
    let report = run(
        &mut db,
        WorktimeCommand::Report { kind: ReportKind::Week },
        ts(2025, 7, 11, 17, 0, 0),
    )
    .unwrap();

    assert!(report.ends_with("40.00h"), "expected '{report}' to end with '40.00h'");
    assert_eq!(report, "Week's balance: 40.00h");
}

#[test]
fn status_on_empty_store_is_a_logic_error() {
    let mut db = get_test_worktime_db();
    let r = run(&mut db, WorktimeCommand::Status, ts(2025, 7, 1, 9, 0, 0));
    assert_eq!(r, Err(CommandError::Other("No previous sessions".to_string())));
}

#[test]
fn status_reflects_running_and_stopped() {
    let mut db = get_test_worktime_db();
    run(&mut db, WorktimeCommand::Start, ts(2025, 7, 1, 9, 0, 0)).unwrap();
    let r = run(&mut db, WorktimeCommand::Status, ts(2025, 7, 1, 10, 0, 0)).unwrap();
    assert_eq!(r, "Running since 2025-07-01 09:00:00");
    run(&mut db, WorktimeCommand::Stop, ts(2025, 7, 1, 15, 0, 0)).unwrap();
    let r = run(&mut db, WorktimeCommand::Status, ts(2025, 7, 1, 16, 0, 0)).unwrap();
    assert_eq!(r, "Not running");
}

#[test]
fn start_while_running_fails_and_mutates_nothing() {
    let mut db = get_test_worktime_db();
    run(&mut db, WorktimeCommand::Start, ts(2025, 7, 1, 9, 0, 0)).unwrap();
    let r = run(&mut db, WorktimeCommand::Start, ts(2025, 7, 1, 10, 0, 0));
    assert_eq!(r, Err(CommandError::Other("Session already started".to_string())));
    let status = run(&mut db, WorktimeCommand::Status, ts(2025, 7, 1, 10, 0, 0)).unwrap();
    assert_eq!(status, "Running since 2025-07-01 09:00:00");
}

#[test]
fn stop_without_a_session_fails() {
    let mut db = get_test_worktime_db();
    let r = run(&mut db, WorktimeCommand::Stop, ts(2025, 7, 1, 9, 0, 0));
    assert_eq!(r, Err(CommandError::Other("No previous sessions".to_string())));

    run(&mut db, WorktimeCommand::Start, ts(2025, 7, 1, 9, 0, 0)).unwrap();
    run(&mut db, WorktimeCommand::Stop, ts(2025, 7, 1, 10, 0, 0)).unwrap();
    let r = run(&mut db, WorktimeCommand::Stop, ts(2025, 7, 1, 11, 0, 0));
    assert_eq!(r, Err(CommandError::Other("No session started".to_string())));
}

#[test]
fn start_and_stop_report_their_times() {
    let mut db = get_test_worktime_db();
    let started = run(&mut db, WorktimeCommand::Start, ts(2025, 7, 1, 9, 5, 7)).unwrap();
    assert_eq!(started, "Start at 09:05:07");
    let stopped = run(&mut db, WorktimeCommand::Stop, ts(2025, 7, 1, 15, 30, 0)).unwrap();
    assert_eq!(stopped, "Stop at 15:30:00");
}

#[test]
fn correct_updates_the_most_recent_start() {
    let mut db = get_test_worktime_db();
    run(&mut db, WorktimeCommand::Start, ts(2025, 7, 1, 9, 0, 0)).unwrap();

    let msg = run(
        &mut db,
        WorktimeCommand::Correct {
            nth_last: 0,
            kind: CorrectionKind::Start,
            hours: 8,
            minutes: 30,
        },
        ts(2025, 7, 1, 10, 0, 0),
    )
    .unwrap();
    assert_eq!(msg, "Start time of '1' has been updated to '08:30:00'");

    // Status reflects the corrected start, not the original.
    let status = run(&mut db, WorktimeCommand::Status, ts(2025, 7, 1, 10, 0, 0)).unwrap();
    assert_eq!(status, "Running since 2025-07-01 08:30:00");

    // A day report at 10:00 now counts from 08:30.
    let report = run(
        &mut db,
        WorktimeCommand::Report { kind: ReportKind::Day },
        ts(2025, 7, 1, 10, 0, 0),
    )
    .unwrap();
    assert_eq!(report, "Day's balance: 1.50h");
}

#[test]
fn correct_end_uses_the_start_date() {
    let mut db = get_test_worktime_db();
    run(&mut db, WorktimeCommand::Start, ts(2025, 7, 1, 9, 0, 0)).unwrap();
    run(&mut db, WorktimeCommand::Stop, ts(2025, 7, 2, 1, 0, 0)).unwrap();

    let msg = run(
        &mut db,
        WorktimeCommand::Correct { nth_last: 0, kind: CorrectionKind::End, hours: 17, minutes: 0 },
        ts(2025, 7, 2, 9, 0, 0),
    )
    .unwrap();
    assert_eq!(msg, "End time of '1' has been updated to '17:00:00'");
    let last = db.get_last_session().unwrap();
    assert_eq!(last.end, Some(ts(2025, 7, 1, 17, 0, 0)));
}

#[test]
fn correct_out_of_range_position_is_a_database_error() {
    let mut db = get_test_worktime_db();
    let r = run(
        &mut db,
        WorktimeCommand::Correct { nth_last: 3, kind: CorrectionKind::Start, hours: 8, minutes: 0 },
        ts(2025, 7, 1, 10, 0, 0),
    );
    match r {
        Err(CommandError::DatabaseError(m)) => {
            assert_eq!(m, "no rows returned by a query that expected to return at least one row")
        }
        other => panic!("unexpected result: {other:?}"),
    }
}

#[test]
fn report_rounds_minutes_to_hundredths() {
    let mut db = get_test_worktime_db();
    run(&mut db, WorktimeCommand::Start, ts(2025, 7, 1, 9, 0, 0)).unwrap();
    run(&mut db, WorktimeCommand::Stop, ts(2025, 7, 1, 9, 1, 0)).unwrap();
    let report = run(
        &mut db,
        WorktimeCommand::Report { kind: ReportKind::Day },
        ts(2025, 7, 1, 9, 1, 0),
    )
    .unwrap();
    // One minute is a sixtieth of an hour, 0.01666..., shown as 0.02.
    assert_eq!(report, "Day's balance: 0.02h");
}

#[test]
fn report_shows_a_negative_balance_after_an_inverting_correction() {
    let mut db = get_test_worktime_db();
    run(&mut db, WorktimeCommand::Start, ts(2025, 7, 1, 10, 0, 0)).unwrap();
    run(&mut db, WorktimeCommand::Stop, ts(2025, 7, 1, 10, 0, 0)).unwrap();
    // The store accepts a correction that inverts the interval.
    run(
        &mut db,
        WorktimeCommand::Correct { nth_last: 0, kind: CorrectionKind::End, hours: 9, minutes: 1 },
        ts(2025, 7, 1, 11, 0, 0),
    )
    .unwrap();
    let report = run(
        &mut db,
        WorktimeCommand::Report { kind: ReportKind::Day },
        ts(2025, 7, 1, 11, 0, 0),
    )
    .unwrap();
    // Minus 59 minutes, truncated toward zero, shown as -0.98.
    assert_eq!(report, "Day's balance: -0.98h");
}

#[test]
fn report_counts_an_open_session_up_to_now() {
    let mut db = get_test_worktime_db();
    run(&mut db, WorktimeCommand::Start, ts(2025, 7, 1, 9, 0, 0)).unwrap();
    let report = run(
        &mut db,
        WorktimeCommand::Report { kind: ReportKind::Day },
        ts(2025, 7, 1, 12, 0, 0),
    )
    .unwrap();
    assert_eq!(report, "Day's balance: 3.00h");
}

#[test]
fn month_report_starts_at_the_first() {
    let mut db = get_test_worktime_db();
    // One session in June, one in July.
    run(&mut db, WorktimeCommand::Start, ts(2025, 6, 30, 9, 0, 0)).unwrap();
    run(&mut db, WorktimeCommand::Stop, ts(2025, 6, 30, 17, 0, 0)).unwrap();
    run(&mut db, WorktimeCommand::Start, ts(2025, 7, 2, 9, 0, 0)).unwrap();
    run(&mut db, WorktimeCommand::Stop, ts(2025, 7, 2, 11, 0, 0)).unwrap();
    let report = run(
        &mut db,
        WorktimeCommand::Report { kind: ReportKind::Month },
        ts(2025, 7, 2, 12, 0, 0),
    )
    .unwrap();
    assert_eq!(report, "Month's balance: 2.00h");
}

#[test]
fn quit_and_host_commands() {
    let mut db = get_test_worktime_db();
    let now = ts(2025, 7, 1, 9, 0, 0);
    assert_eq!(run(&mut db, WorktimeCommand::Quit, now).unwrap(), "See ya, bruv");
    assert_eq!(run(&mut db, WorktimeCommand::Sql, now).unwrap(), "");
    assert_eq!(run(&mut db, WorktimeCommand::InternalHelp, now).unwrap(), "");
}

#[test]
fn menus_list_every_entry_in_order() {
    let menu = MainMenuCommand::wrapped_iter();
    assert_eq!(menu.len(), 8);
    assert!(matches!(menu[0], MainMenuCommand::Status));
    assert!(matches!(menu[3], MainMenuCommand::Report));
    assert!(matches!(menu[7], MainMenuCommand::Quit));

    let kinds = ReportKind::wrapped_iter();
    assert_eq!(kinds.len(), 3);
    assert!(matches!(kinds[0], ReportKind::Day));
    assert!(matches!(kinds[2], ReportKind::Month));
}

#[test]
fn parse_hhmm_accepts_and_rejects() {
    assert_eq!(parse_hhmm("09:30"), Ok((9, 30)));
    assert_eq!(parse_hhmm("0:0"), Ok((0, 0)));
    assert_eq!(parse_hhmm("23:59"), Ok((23, 59)));
    assert_eq!(parse_hhmm("+9:30"), Ok((9, 30)));
    assert_eq!(parse_hhmm("930"), Err("Use HH:MM (e.g., 09:30)".to_string()));
    assert_eq!(parse_hhmm(""), Err("Use HH:MM (e.g., 09:30)".to_string()));
    assert_eq!(parse_hhmm("24:00"), Err("Hours must be 0–23".to_string()));
    assert_eq!(parse_hhmm("ab:10"), Err("Hours must be 0–23".to_string()));
    assert_eq!(parse_hhmm("300:10"), Err("Hours must be 0–23".to_string()));
    assert_eq!(parse_hhmm(":10"), Err("Hours must be 0–23".to_string()));
    assert_eq!(parse_hhmm("12:60"), Err("Minutes must be 0–59".to_string()));
    assert_eq!(parse_hhmm("12:"), Err("Minutes must be 0–59".to_string()));
    assert_eq!(parse_hhmm("9:3:0"), Err("Minutes must be 0–59".to_string()));
}

#[test]
fn correction_guard_rejects_inverted_intervals() {
    let msg = "Start can't be after end!".to_string();
    assert_eq!(
        validate_correction_time(CorrectionKind::Start, 540, Some(600), 601),
        Err(msg.clone())
    );
    assert_eq!(validate_correction_time(CorrectionKind::Start, 540, Some(600), 600), Ok(()));
    assert_eq!(validate_correction_time(CorrectionKind::Start, 540, None, 900), Ok(()));
    assert_eq!(validate_correction_time(CorrectionKind::End, 540, Some(600), 539), Err(msg));
    assert_eq!(validate_correction_time(CorrectionKind::End, 540, None, 540), Ok(()));
}

#[test]
fn defaults_match_the_surface() {
    assert!(matches!(ReportKind::default(), ReportKind::Day));
    assert!(matches!(CorrectionKind::default(), CorrectionKind::Start));
}

#[test]
fn week_report_crosses_a_month_boundary() {
    let mut db = get_test_worktime_db();
    // Sunday 2025-07-27: before the week of Friday 2025-08-01.
    run(&mut db, WorktimeCommand::Start, ts(2025, 7, 27, 9, 0, 0)).unwrap();
    run(&mut db, WorktimeCommand::Stop, ts(2025, 7, 27, 10, 0, 0)).unwrap();
    // Wednesday 2025-07-30 and Friday 2025-08-01: inside that week.
    run(&mut db, WorktimeCommand::Start, ts(2025, 7, 30, 9, 0, 0)).unwrap();
    run(&mut db, WorktimeCommand::Stop, ts(2025, 7, 30, 11, 0, 0)).unwrap();
    run(&mut db, WorktimeCommand::Start, ts(2025, 8, 1, 9, 0, 0)).unwrap();
    run(&mut db, WorktimeCommand::Stop, ts(2025, 8, 1, 12, 0, 0)).unwrap();
    let report = run(
        &mut db,
        WorktimeCommand::Report { kind: ReportKind::Week },
        ts(2025, 8, 1, 13, 0, 0),
    )
    .unwrap();
    // The week started Monday 2025-07-28, so only five hours count.
    assert_eq!(report, "Week's balance: 5.00h");
}

#[test]
fn rendering_pads_fields() {
    let t = ts(987, 3, 4, 5, 6, 7);
    assert_eq!(display_time(&t), "05:06:07");
    assert_eq!(display_datetime(&t), "0987-03-04 05:06:07");
}
