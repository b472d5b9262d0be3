use worktime::db::{
    WorktimeDatabase, WorktimeSession, WorktimeSessionId, consistency_check, get_test_worktime_db,
};
use worktime::err::{CommandError, CorruptionError};
use worktime::time::{Date, Timestamp};

fn ts(year: u16, month: u8, day: u8, hour: u8, minute: u8, second: u8) -> Timestamp {
    Timestamp { date: Date { year, month, day }, hour, minute, second }
}

fn session(id: u32, start: Timestamp, end: Option<Timestamp>) -> WorktimeSession {
    WorktimeSession { id: WorktimeSessionId(id), start, end }
}

#[test]
fn test_dbs_should_be_isolated() {
    let now = ts(2025, 7, 1, 9, 0, 0);
    let mut db1 = get_test_worktime_db();
    let db2 = get_test_worktime_db();

    db1.insert_start(now).unwrap();
    let last_1 = db1.get_last_session();
    let last_2 = db2.get_last_session();

    assert!(last_1.is_some());
    assert!(last_2.is_none());
}

#[test]
fn insert_start_assigns_increasing_ids() {
    let mut db = get_test_worktime_db();
    let t1 = ts(2025, 7, 1, 9, 0, 0);
    assert_eq!(db.insert_start(t1), Ok(t1));
    let first = db.get_last_session().unwrap();
    assert_eq!(first.id, WorktimeSessionId(1));
    assert_eq!(first.start, t1);
    assert_eq!(first.end, None);

    db.insert_stop(first.id, ts(2025, 7, 1, 10, 0, 0)).unwrap();
    let t2 = ts(2025, 7, 1, 11, 0, 0);
    db.insert_start(t2).unwrap();
    assert_eq!(db.get_last_session().unwrap().id, WorktimeSessionId(2));
}

#[test]
fn alternating_start_stop_keeps_at_most_one_open() {
    let mut db = get_test_worktime_db();
    for d in 1..4u8 {
        db.insert_start(ts(2025, 7, d, 9, 0, 0)).unwrap();
        let open = db.sessions().iter().filter(|s| s.end.is_none()).count();
        assert_eq!(open, 1);
        let id = db.get_last_session().unwrap().id;
        db.insert_stop(id, ts(2025, 7, d, 17, 0, 0)).unwrap();
        let open = db.sessions().iter().filter(|s| s.end.is_none()).count();
        assert_eq!(open, 0);
    }
    assert_eq!(db.sessions().len(), 3);
}

#[test]
fn insert_start_fails_while_a_session_is_open() {
    let mut db = get_test_worktime_db();
    db.insert_start(ts(2025, 7, 1, 9, 0, 0)).unwrap();
    let r = db.insert_start(ts(2025, 7, 1, 10, 0, 0));
    assert_eq!(r, Err(CommandError::Other("Session already started".to_string())));
    // No mutation: still exactly one session, still open.
    let last = db.get_last_session().unwrap();
    assert_eq!(last.id, WorktimeSessionId(1));
    assert_eq!(last.end, None);
    assert_eq!(db.get_nth_last_session(1), None);
}

#[test]
fn insert_stop_unknown_id_reports_not_found() {
    let mut db = get_test_worktime_db();
    let r = db.insert_stop(WorktimeSessionId(7), ts(2025, 7, 1, 10, 0, 0));
    match r {
        Err(CommandError::DatabaseError(m)) => {
            assert_eq!(m, "no rows returned by a query that expected to return at least one row")
        }
        other => panic!("unexpected result: {other:?}"),
    }
}

#[test]
fn get_last_n_sessions_descends_by_id() {
    let mut db = get_test_worktime_db();
    for d in 1..4u8 {
        db.insert_start(ts(2025, 7, d, 9, 0, 0)).unwrap();
        let id = db.get_last_session().unwrap().id;
        db.insert_stop(id, ts(2025, 7, d, 17, 0, 0)).unwrap();
    }
    let last_two = db.get_last_n_sessions(2);
    assert_eq!(last_two.len(), 2);
    assert_eq!(last_two[0].id, WorktimeSessionId(3));
    assert_eq!(last_two[1].id, WorktimeSessionId(2));
    let all = db.get_last_n_sessions(10);
    assert_eq!(all.len(), 3);
    assert_eq!(db.get_nth_last_session(0).unwrap().id, WorktimeSessionId(3));
    assert_eq!(db.get_nth_last_session(2).unwrap().id, WorktimeSessionId(1));
    assert_eq!(db.get_nth_last_session(3), None);
}

#[test]
fn get_sessions_since_filters_by_start_date() {
    let mut db = get_test_worktime_db();
    for d in 1..5u8 {
        db.insert_start(ts(2025, 7, d, 9, 0, 0)).unwrap();
        let id = db.get_last_session().unwrap().id;
        db.insert_stop(id, ts(2025, 7, d, 17, 0, 0)).unwrap();
    }
    let since = db.get_sessions_since(Date { year: 2025, month: 7, day: 3 });
    assert_eq!(since.len(), 2);
    assert_eq!(since[0].id, WorktimeSessionId(3));
    assert_eq!(since[1].id, WorktimeSessionId(4));
}

#[test]
fn update_times_rewrite_the_addressed_session() {
    let mut db = get_test_worktime_db();
    db.insert_start(ts(2025, 7, 1, 9, 0, 0)).unwrap();
    let id = db.get_last_session().unwrap().id;
    db.insert_stop(id, ts(2025, 7, 1, 17, 0, 0)).unwrap();

    db.update_start_time(id, ts(2025, 7, 1, 8, 30, 0)).unwrap();
    assert_eq!(db.get_last_session().unwrap().start, ts(2025, 7, 1, 8, 30, 0));

    db.update_end_time(id, ts(2025, 7, 1, 16, 0, 0)).unwrap();
    assert_eq!(db.get_last_session().unwrap().end, Some(ts(2025, 7, 1, 16, 0, 0)));

    let missing = db.update_start_time(WorktimeSessionId(9), ts(2025, 7, 1, 8, 0, 0));
    assert!(matches!(missing, Err(CommandError::DatabaseError(_))));

    let by_id = db.get_session_by_id(id).unwrap();
    assert_eq!(by_id.start, ts(2025, 7, 1, 8, 30, 0));
    assert!(matches!(
        db.get_session_by_id(WorktimeSessionId(9)),
        Err(CommandError::DatabaseError(_))
    ));
}

#[test]
fn consistency_check_accepts_a_clean_history() {
    let sessions = vec![
        session(1, ts(2025, 7, 1, 9, 0, 0), Some(ts(2025, 7, 1, 17, 0, 0))),
        session(2, ts(2025, 7, 2, 9, 0, 0), Some(ts(2025, 7, 2, 17, 0, 0))),
        session(3, ts(2025, 7, 3, 9, 0, 0), None),
    ];
    let now = ts(2025, 7, 3, 10, 0, 0);
    assert_eq!(consistency_check(&sessions, now), Ok(()));
}

#[test]
fn consistency_check_rejects_two_open_sessions() {
    let sessions = vec![
        session(1, ts(2025, 7, 1, 9, 0, 0), None),
        session(2, ts(2025, 7, 2, 9, 0, 0), None),
    ];
    let now = ts(2025, 7, 3, 10, 0, 0);
    assert_eq!(
        consistency_check(&sessions, now),
        Err(CorruptionError::MultipleOpenSessions { count: 2 })
    );
}

#[test]
fn consistency_check_rejects_an_inverted_session() {
    let sessions = vec![session(1, ts(2025, 7, 1, 9, 0, 0), Some(ts(2025, 7, 1, 8, 0, 0)))];
    let now = ts(2025, 7, 3, 10, 0, 0);
    assert_eq!(
        consistency_check(&sessions, now),
        Err(CorruptionError::InvertedSession { id: WorktimeSessionId(1) })
    );
}

#[test]
fn consistency_check_rejects_overlapping_sessions() {
    let sessions = vec![
        session(1, ts(2025, 7, 1, 9, 0, 0), Some(ts(2025, 7, 1, 12, 0, 0))),
        session(2, ts(2025, 7, 1, 11, 0, 0), Some(ts(2025, 7, 1, 13, 0, 0))),
    ];
    let now = ts(2025, 7, 3, 10, 0, 0);
    assert_eq!(
        consistency_check(&sessions, now),
        Err(CorruptionError::SessionOverlap { id: WorktimeSessionId(2) })
    );
}

#[test]
fn consistency_check_uses_now_as_the_open_sessions_end() {
    // The open session effectively runs until `now`, so a later session
    // that starts before `now` overlaps it.
    let sessions = vec![
        session(1, ts(2025, 7, 1, 9, 0, 0), None),
        session(2, ts(2025, 7, 2, 9, 0, 0), Some(ts(2025, 7, 2, 17, 0, 0))),
    ];
    let now = ts(2025, 7, 3, 10, 0, 0);
    assert_eq!(
        consistency_check(&sessions, now),
        Err(CorruptionError::SessionOverlap { id: WorktimeSessionId(2) })
    );
}

#[test]
fn consistency_check_tolerates_zero_length_sessions() {
    let sessions = vec![
        session(1, ts(2025, 7, 1, 9, 0, 0), Some(ts(2025, 7, 1, 9, 0, 0))),
        session(2, ts(2025, 7, 1, 9, 0, 0), Some(ts(2025, 7, 1, 10, 0, 0))),
    ];
    let now = ts(2025, 7, 3, 10, 0, 0);
    assert_eq!(consistency_check(&sessions, now), Ok(()));
}

#[test]
fn new_store_audits_loaded_sessions() {
    let now = ts(2025, 7, 3, 10, 0, 0);
    let clean = vec![
        session(1, ts(2025, 7, 1, 9, 0, 0), Some(ts(2025, 7, 1, 17, 0, 0))),
        session(2, ts(2025, 7, 2, 9, 0, 0), None),
    ];
    let db = WorktimeDatabase::new(clean, now).unwrap();
    assert_eq!(db.get_last_session().unwrap().id, WorktimeSessionId(2));

    let shuffled = vec![
        session(2, ts(2025, 7, 1, 9, 0, 0), Some(ts(2025, 7, 1, 17, 0, 0))),
        session(1, ts(2025, 7, 2, 9, 0, 0), None),
    ];
    assert_eq!(
        WorktimeDatabase::new(shuffled, now).err(),
        Some(CorruptionError::NonIncreasingIds)
    );

    let bad_time = vec![session(
        1,
        Timestamp { date: Date { year: 2025, month: 13, day: 1 }, hour: 9, minute: 0, second: 0 },
        None,
    )];
    assert_eq!(
        WorktimeDatabase::new(bad_time, now).err(),
        Some(CorruptionError::InvalidTimestamp { id: WorktimeSessionId(1) })
    );
}
