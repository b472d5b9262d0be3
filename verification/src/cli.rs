//! The command surface and the session lifecycle controller.
//!
//! The controller drives Start/Stop/Correct against the store and derives
//! the two logical states from its contents: `Idle` (no open session) and
//! `Running` (one open session).  Each command returns either a formatted
//! message or a typed error; the library performs no console output
//! itself.

use vstd::prelude::*;

use crate::db::{
    WorktimeDatabase, WorktimeSession, WorktimeSessionId, lemma_index_of_id, open_count,
    spec_next_id, with_end, with_start,
};
use crate::err::{CommandError, CommandResult, already_started_chars, row_not_found_chars};
use crate::render::{
    append_hours, append_u128, dec_chars, display_datetime, display_time, spec_datetime_chars,
    spec_hours_chars, spec_time_chars,
};
use crate::time::{
    Date, Timestamp, aggregate_session_times, get_month_start, get_today, get_week_start,
    spec_aggregate, spec_trunc_minutes, spec_week_start,
};

verus! {

/// The report periods.
#[derive(Debug, Clone, Copy, PartialEq, Eq, Structural)]
pub enum ReportKind {
    Day,
    Week,
    Month,
}

/// Which timestamp of a session a correction overwrites.
#[derive(Debug, Clone, Copy, PartialEq, Eq, Structural)]
pub enum CorrectionKind {
    Start,
    End,
}

/// A command of the tracker.
#[derive(Debug, Clone, Copy, PartialEq, Eq, Structural)]
pub enum WorktimeCommand {
    /// Prints current state
    Status,
    /// Start tracking time
    Start,
    /// Stop tracking time
    Stop,
    /// Report the period's total work time
    Report { kind: ReportKind },
    /// Sets start/end of the n-th last session to hours:minutes
    Correct { nth_last: u32, kind: CorrectionKind, hours: u8, minutes: u8 },
    /// Open a database shell (performed by the host around the library)
    Sql,
    /// Print the host's usage help (rendered by the host)
    InternalHelp,
    /// Exit program
    Quit,
}

/// The flat main-menu entries, for interactive selection.
#[derive(Debug, Clone, Copy, PartialEq, Eq, Structural)]
pub enum MainMenuCommand {
    Status,
    Start,
    Stop,
    Report,
    Correct,
    Sql,
    Help,
    Quit,
}

impl Default for ReportKind {
    fn default() -> (r: Self)
        ensures
            r == ReportKind::Day,
    {
        ReportKind::Day
    }
}

impl Default for CorrectionKind {
    fn default() -> (r: Self)
        ensures
            r == CorrectionKind::Start,
    {
        CorrectionKind::Start
    }
}

impl MainMenuCommand {
    /// Every menu entry, in presentation order.
    pub fn wrapped_iter() -> (r: Vec<MainMenuCommand>)
        ensures
            r@ == seq![
                MainMenuCommand::Status,
                MainMenuCommand::Start,
                MainMenuCommand::Stop,
                MainMenuCommand::Report,
                MainMenuCommand::Correct,
                MainMenuCommand::Sql,
                MainMenuCommand::Help,
                MainMenuCommand::Quit,
            ],
    {
        let mut v: Vec<MainMenuCommand> = Vec::new();
        v.push(MainMenuCommand::Status);
        v.push(MainMenuCommand::Start);
        v.push(MainMenuCommand::Stop);
        v.push(MainMenuCommand::Report);
        v.push(MainMenuCommand::Correct);
        v.push(MainMenuCommand::Sql);
        v.push(MainMenuCommand::Help);
        v.push(MainMenuCommand::Quit);
        assert(v@ =~= seq![
            MainMenuCommand::Status,
            MainMenuCommand::Start,
            MainMenuCommand::Stop,
            MainMenuCommand::Report,
            MainMenuCommand::Correct,
            MainMenuCommand::Sql,
            MainMenuCommand::Help,
            MainMenuCommand::Quit,
        ]);
        v
    }
}

impl ReportKind {
    /// Every report kind, in presentation order.
    pub fn wrapped_iter() -> (r: Vec<ReportKind>)
        ensures
            r@ == seq![ReportKind::Day, ReportKind::Week, ReportKind::Month],
    {
        let mut v: Vec<ReportKind> = Vec::new();
        v.push(ReportKind::Day);
        v.push(ReportKind::Week);
        v.push(ReportKind::Month);
        assert(v@ =~= seq![ReportKind::Day, ReportKind::Week, ReportKind::Month]);
        v
    }
}

/// The top-level command-line surface: the host parses arguments into this
/// shape and hands over the command.
#[derive(Debug, Clone, Copy, PartialEq, Eq, Structural)]
pub struct Cli {
    pub command: WorktimeCommand,
}

/// "No previous sessions": the store is empty.
pub open spec fn no_previous_chars() -> Seq<char> {
    "No previous sessions"@
}

/// "Not running": the most recent session is closed.
pub open spec fn not_running_chars() -> Seq<char> {
    "Not running"@
}

/// "No session started": the store is non-empty but nothing is open.
pub open spec fn no_session_started_chars() -> Seq<char> {
    "No session started"@
}

/// The status line while a session is open.
pub open spec fn running_since_chars(start: Timestamp) -> Seq<char> {
    "Running since "@ + spec_datetime_chars(start)
}

/// The confirmation of a successful Start.
pub open spec fn start_at_chars(t: Timestamp) -> Seq<char> {
    "Start at "@ + spec_time_chars(t)
}

/// The confirmation of a successful Stop.
pub open spec fn stop_at_chars(t: Timestamp) -> Seq<char> {
    "Stop at "@ + spec_time_chars(t)
}

/// The farewell of Quit.
pub open spec fn quit_chars() -> Seq<char> {
    "See ya, bruv"@
}

/// The name of a report period.
pub open spec fn report_kind_chars(kind: ReportKind) -> Seq<char> {
    match kind {
        ReportKind::Day => "Day"@,
        ReportKind::Week => "Week"@,
        ReportKind::Month => "Month"@,
    }
}

/// The report line: period name and balance in hours.
pub open spec fn balance_chars(kind: ReportKind, minutes: int) -> Seq<char> {
    report_kind_chars(kind) + "'s balance: "@ + spec_hours_chars(minutes) + "h"@
}

/// The name of a corrected field.
pub open spec fn correction_kind_chars(kind: CorrectionKind) -> Seq<char> {
    match kind {
        CorrectionKind::Start => "Start"@,
        CorrectionKind::End => "End"@,
    }
}

/// The confirmation of a successful Correct.
pub open spec fn corrected_chars(kind: CorrectionKind, id: int, t: Timestamp) -> Seq<char> {
    correction_kind_chars(kind) + " time of '"@ + dec_chars(id) + "' has been updated to '"@
        + spec_time_chars(t) + "'"@
}

/// The reference date of a report: today, the Monday on or before today,
/// or the first of the month.
pub open spec fn spec_ref_day(kind: ReportKind, now: Timestamp) -> Date {
    match kind {
        ReportKind::Day => now.date,
        ReportKind::Week => spec_week_start(now.date),
        ReportKind::Month => Date { year: now.date.year, month: now.date.month, day: 1u8 },
    }
}

/// The whole minutes a report sums: the sessions starting on or after the
/// reference date, aggregated at `now` and truncated to minutes.
pub open spec fn spec_report_minutes(
    s: Seq<WorktimeSession>,
    kind: ReportKind,
    now: Timestamp,
) -> int {
    spec_trunc_minutes(
        spec_aggregate(crate::db::sessions_since(s, spec_ref_day(kind, now)), now),
    )
}

/// What Status returns for store contents `s`: the empty-store error, "Not
/// running" after a closed session, or the running-since line of the open
/// one.
pub open spec fn status_post(s: Seq<WorktimeSession>, r: CommandResult) -> bool {
    &&& (s.len() == 0 ==> (r matches Err(e) && e matches CommandError::Other(m) && m@
        == no_previous_chars()))
    &&& (s.len() > 0 && s.last().end is Some ==> (r matches Ok(m) && m@ == not_running_chars()))
    &&& (s.len() > 0 && s.last().end is None ==> (r matches Ok(m) && m@ == running_since_chars(
        s.last().start,
    )))
}

/// What Start does: with a session open it fails with the already-started
/// logic error and mutates nothing; otherwise it appends a fresh open
/// session starting at `now`.
pub open spec fn start_post(
    s_old: Seq<WorktimeSession>,
    s_new: Seq<WorktimeSession>,
    now: Timestamp,
    r: CommandResult,
) -> bool {
    &&& (open_count(s_old) > 0 ==> (r matches Err(e) && e matches CommandError::Other(m) && m@
        == already_started_chars()) && s_new == s_old)
    &&& (open_count(s_old) == 0 ==> (r matches Ok(m) && m@ == start_at_chars(now)) && s_new
        == s_old.push(
        WorktimeSession {
            id: WorktimeSessionId(spec_next_id(s_old) as u32),
            start: now,
            end: None,
        },
    ))
}

/// What Stop does: with an empty store or a closed last session it fails
/// with the matching logic error and mutates nothing; otherwise it closes
/// the open last session at `now`.
pub open spec fn stop_post(
    s_old: Seq<WorktimeSession>,
    s_new: Seq<WorktimeSession>,
    now: Timestamp,
    r: CommandResult,
) -> bool {
    &&& (s_old.len() == 0 ==> (r matches Err(e) && e matches CommandError::Other(m) && m@
        == no_previous_chars()) && s_new == s_old)
    &&& (s_old.len() > 0 && s_old.last().end is Some ==> (r matches Err(e) && e
        matches CommandError::Other(m) && m@ == no_session_started_chars()) && s_new == s_old)
    &&& (s_old.len() > 0 && s_old.last().end is None ==> (r matches Ok(m) && m@ == stop_at_chars(
        now,
    )) && s_new == s_old.update(s_old.len() - 1, with_end(s_old.last(), now)))
}

/// What Report returns: the period's balance line, always successfully.
pub open spec fn report_post(
    s: Seq<WorktimeSession>,
    kind: ReportKind,
    now: Timestamp,
    r: CommandResult,
) -> bool {
    r matches Ok(m) && m@ == balance_chars(kind, spec_report_minutes(s, kind, now))
}

/// The timestamp a correction writes: the session's original start date
/// with the time of day replaced by `hours:minutes:00`.
pub open spec fn spec_corrected_time(sess: WorktimeSession, hours: u8, minutes: u8) -> Timestamp {
    Timestamp { date: sess.start.date, hour: hours, minute: minutes, second: 0u8 }
}

/// The corrected session: start or end overwritten by the corrected time.
pub open spec fn spec_apply_correction(
    sess: WorktimeSession,
    kind: CorrectionKind,
    hours: u8,
    minutes: u8,
) -> WorktimeSession {
    match kind {
        CorrectionKind::Start => with_start(sess, spec_corrected_time(sess, hours, minutes)),
        CorrectionKind::End => with_end(sess, spec_corrected_time(sess, hours, minutes)),
    }
}

/// What Correct does: with fewer sessions than the position asks for it
/// fails with the store's not-found error and mutates nothing; otherwise
/// it overwrites the chosen field of the addressed session.  The store
/// accepts a correction that inverts or overlaps intervals; guarding
/// against that is left to the interactive front end.
pub open spec fn correct_post(
    s_old: Seq<WorktimeSession>,
    s_new: Seq<WorktimeSession>,
    nth_last: u32,
    kind: CorrectionKind,
    hours: u8,
    minutes: u8,
    r: CommandResult,
) -> bool {
    &&& ((nth_last as int) >= s_old.len() ==> (r matches Err(e) && e
        matches CommandError::DatabaseError(m) && m@ == row_not_found_chars()) && s_new == s_old)
    &&& ((nth_last as int) < s_old.len() ==> ({
        let i = s_old.len() - 1 - nth_last;
        let sess = s_old[i];
        &&& (r matches Ok(m) && m@ == corrected_chars(
            kind,
            sess.id.0 as int,
            spec_corrected_time(sess, hours, minutes),
        ))
        &&& s_new == s_old.update(i, spec_apply_correction(sess, kind, hours, minutes))
    }))
}

impl WorktimeCommand {
    /// Reports the derived state: running since the open session's start,
    /// not running, or the empty-store error.  A query: the store is not
    /// touched.
    pub fn status(&self, db: &WorktimeDatabase) -> (r: CommandResult)
        ensures
            status_post(db@, r),
    {
        match db.get_last_session() {
            None => Err(CommandError::Other("No previous sessions".to_owned())),
            Some(last) => match last.end {
                Some(_) => Ok("Not running".to_owned()),
                None => {
                    let mut msg: String = "Running since ".to_owned();
                    let dt: String = display_datetime(&last.start);
                    msg.append(dt.as_str());
                    Ok(msg)
                },
            },
        }
    }

    /// Starts a session at `now` (state `Idle` to `Running`); while one is
    /// already running it fails and mutates nothing.
    pub fn start(&self, db: &mut WorktimeDatabase, now: Timestamp) -> (r: CommandResult)
        requires
            old(db).wf(),
            now.valid(),
            old(db).can_insert(),
        ensures
            final(db).wf(),
            start_post(old(db)@, final(db)@, now, r),
    {
        match db.insert_start(now) {
            Ok(t) => {
                let mut msg: String = "Start at ".to_owned();
                let hms: String = display_time(&t);
                msg.append(hms.as_str());
                Ok(msg)
            },
            Err(e) => Err(e),
        }
    }

    /// Stops the running session at `now` (state `Running` to `Idle`);
    /// with nothing running it fails — the empty-store error on an empty
    /// store, the no-session-started error otherwise — and mutates
    /// nothing.
    pub fn stop(&self, db: &mut WorktimeDatabase, now: Timestamp) -> (r: CommandResult)
        requires
            old(db).wf(),
            now.valid(),
        ensures
            final(db).wf(),
            stop_post(old(db)@, final(db)@, now, r),
    {
        let last_opt: Option<WorktimeSession> = db.get_last_session();
        if last_opt.is_none() {
            return Err(CommandError::Other("No previous sessions".to_owned()));
        }
        let last: WorktimeSession = last_opt.unwrap();
        if last.end.is_some() {
            return Err(CommandError::Other("No session started".to_owned()));
        }
        proof {
            lemma_index_of_id(db@, last.id, db@.len() - 1);
        }
        match db.insert_stop(last.id, now) {
            Ok(t) => {
                let mut msg: String = "Stop at ".to_owned();
                let hms: String = display_time(&t);
                msg.append(hms.as_str());
                Ok(msg)
            },
            Err(e) => Err(e),
        }
    }

    /// Reports the period's aggregated balance at `now`.  A query: the
    /// store is not touched, and the sum is a plain fold, so an open
    /// session contributes its elapsed time so far.
    pub fn report(&self, db: &WorktimeDatabase, kind: ReportKind, now: Timestamp) -> (r:
        CommandResult)
        requires
            now.valid(),
        ensures
            report_post(db@, kind, now, r),
    {
        let ref_day: Date = match kind {
            ReportKind::Day => get_today(now),
            ReportKind::Week => get_week_start(now),
            ReportKind::Month => get_month_start(now),
        };
        let sessions: Vec<WorktimeSession> = db.get_sessions_since(ref_day);
        let n: usize = sessions.len();
        let delta: i128 = aggregate_session_times(&sessions, now);
        proof {
            assert(-3_000_000_000_000 * (n as int) <= delta <= 3_000_000_000_000 * (n as int));
        }
        let negative: bool = delta < 0;
        let mag: u128 = if delta < 0 {
            (-delta) as u128
        } else {
            delta as u128
        };
        let minutes: u128 = mag / 60;
        let mut msg: String = match kind {
            ReportKind::Day => "Day".to_owned(),
            ReportKind::Week => "Week".to_owned(),
            ReportKind::Month => "Month".to_owned(),
        };
        msg.append("'s balance: ");
        append_hours(&mut msg, negative, minutes);
        msg.append("h");
        proof {
            let mins: int = spec_report_minutes(db@, kind, now);
            assert(mins == if negative {
                -(minutes as int)
            } else {
                minutes as int
            });
            assert(msg@ =~= balance_chars(kind, mins));
        }
        Ok(msg)
    }

    /// Resolves the `nth_last` position (0 is the most recent session) to
    /// a session and overwrites its start or end with the session's start
    /// date at `hours:minutes:00`.  No range validation beyond the clock
    /// fields: an inverted interval is accepted and persisted.
    pub fn correct(
        &self,
        db: &mut WorktimeDatabase,
        nth_last: u32,
        kind: CorrectionKind,
        hours: u8,
        minutes: u8,
    ) -> (r: CommandResult)
        requires
            old(db).wf(),
            hours <= 23,
            minutes <= 59,
        ensures
            final(db).wf(),
            correct_post(old(db)@, final(db)@, nth_last, kind, hours, minutes, r),
    {
        let sess: WorktimeSession = match db.get_nth_last_session(nth_last) {
            Some(s) => s,
            None => {
                return Err(crate::err::row_not_found_error());
            },
        };
        let ghost idx: int = old(db)@.len() - 1 - nth_last;
        proof {
            assert(crate::db::session_valid(old(db)@[idx]));
            lemma_index_of_id(db@, sess.id, idx);
        }
        let date_time: Timestamp = Timestamp {
            date: sess.start.date,
            hour: hours,
            minute: minutes,
            second: 0,
        };
        let outcome: Result<(), CommandError> = match kind {
            CorrectionKind::Start => db.update_start_time(sess.id, date_time),
            CorrectionKind::End => db.update_end_time(sess.id, date_time),
        };
        match outcome {
            Ok(()) => {
                let mut msg: String = match kind {
                    CorrectionKind::Start => "Start".to_owned(),
                    CorrectionKind::End => "End".to_owned(),
                };
                msg.append(" time of '");
                append_u128(&mut msg, sess.id.0 as u128);
                msg.append("' has been updated to '");
                let hms: String = display_time(&date_time);
                msg.append(hms.as_str());
                msg.append("'");
                proof {
                    assert(msg@ =~= corrected_chars(kind, sess.id.0 as int, date_time));
                }
                Ok(msg)
            },
            Err(e) => Err(e),
        }
    }

    /// Executes one command against the store at `now` and returns its
    /// message or error.  `Sql` and `InternalHelp` are performed by the
    /// host around the library (a database shell and the help renderer);
    /// here they succeed with an empty message and touch nothing, as a
    /// successful shell-out has nothing to report.
    pub fn execute(&self, db: &mut WorktimeDatabase, now: Timestamp) -> (r: CommandResult)
        requires
            old(db).wf(),
            now.valid(),
            self is Start ==> old(db).can_insert(),
            (*self) matches WorktimeCommand::Correct { hours, minutes, .. } ==> hours <= 23 && minutes
                <= 59,
        ensures
            final(db).wf(),
            self is Status ==> final(db)@ == old(db)@ && status_post(old(db)@, r),
            self is Start ==> start_post(old(db)@, final(db)@, now, r),
            self is Stop ==> stop_post(old(db)@, final(db)@, now, r),
            (*self) matches WorktimeCommand::Report { kind } ==> final(db)@ == old(db)@ && report_post(
                old(db)@,
                kind,
                now,
                r,
            ),
            (*self) matches WorktimeCommand::Correct { nth_last, kind, hours, minutes }
                ==> correct_post(old(db)@, final(db)@, nth_last, kind, hours, minutes, r),
            self is Sql ==> final(db)@ == old(db)@ && (r matches Ok(m) && m@ == Seq::<
                char,
            >::empty()),
            self is InternalHelp ==> final(db)@ == old(db)@ && (r matches Ok(m) && m@ == Seq::<
                char,
            >::empty()),
            self is Quit ==> final(db)@ == old(db)@ && (r matches Ok(m) && m@ == quit_chars()),
    {
        match self {
            WorktimeCommand::Status => self.status(db),
            WorktimeCommand::Start => self.start(db, now),
            WorktimeCommand::Stop => self.stop(db, now),
            WorktimeCommand::Report { kind } => self.report(db, *kind, now),
            WorktimeCommand::Correct { nth_last, kind, hours, minutes } => self.correct(
                db,
                *nth_last,
                *kind,
                *hours,
                *minutes,
            ),
            WorktimeCommand::Sql => Ok(String::new()),
            WorktimeCommand::InternalHelp => Ok(String::new()),
            WorktimeCommand::Quit => Ok("See ya, bruv".to_owned()),
        }
    }
}

/// A decimal digit.
pub open spec fn is_digit(c: char) -> bool {
    48 <= c as u32 <= 57
}

/// The value of a decimal digit.
pub open spec fn digit_val(c: char) -> int {
    c as u32 - 48
}

/// Every character is a decimal digit.
pub open spec fn all_digits(s: Seq<char>) -> bool {
    forall|i: int| 0 <= i < s.len() ==> is_digit(#[trigger] s[i])
}

/// The value of a digit string, most significant digit first.
pub open spec fn digits_val(s: Seq<char>) -> int
    decreases s.len(),
{
    if s.len() == 0 {
        0
    } else {
        digits_val(s.drop_last()) * 10 + digit_val(s.last())
    }
}

/// The digits of a numeral: the text with an optional leading plus sign
/// removed.
pub open spec fn numeral_digits(s: Seq<char>) -> Seq<char> {
    if s.len() > 0 && s[0] == '+' {
        s.skip(1)
    } else {
        s
    }
}

/// The texts `u8` parsing accepts: an optional plus sign, then one or more
/// digits, with a value of at most 255.
pub open spec fn is_u8_numeral(s: Seq<char>) -> bool {
    &&& numeral_digits(s).len() >= 1
    &&& all_digits(numeral_digits(s))
    &&& digits_val(numeral_digits(s)) <= 255
}

/// The value of an accepted numeral.
pub open spec fn u8_numeral_val(s: Seq<char>) -> int {
    digits_val(numeral_digits(s))
}

proof fn lemma_digits_val_nonneg(s: Seq<char>)
    requires
        all_digits(s),
    ensures
        digits_val(s) >= 0,
    decreases s.len(),
{
    if s.len() > 0 {
        assert(forall|k: int| 0 <= k < s.len() - 1 ==> s.drop_last()[k] == #[trigger] s[k]);
        lemma_digits_val_nonneg(s.drop_last());
        assert(is_digit(s[s.len() - 1]));
    }
}

/// A digit string is worth at least any of its prefixes.
proof fn lemma_digits_val_prefix(s: Seq<char>, i: int)
    requires
        all_digits(s),
        0 <= i <= s.len(),
    ensures
        digits_val(s.subrange(0, i)) <= digits_val(s),
    decreases s.len() - i,
{
    if i < s.len() {
        let p = s.subrange(0, i);
        let q = s.subrange(0, i + 1);
        assert(q.drop_last() =~= p);
        assert(q.last() == s[i]);
        assert(all_digits(p));
        lemma_digits_val_nonneg(p);
        assert(is_digit(s[i]));
        assert(digits_val(q) == digits_val(p) * 10 + digit_val(s[i]));
        lemma_digits_val_prefix(s, i + 1);
    } else {
        assert(s.subrange(0, i) =~= s);
    }
}

/// The first position holding a colon.
pub open spec fn spec_first_colon(s: Seq<char>) -> int {
    choose|i: int|
        0 <= i < s.len() && s[i] == ':' && (forall|k: int| 0 <= k < i ==> #[trigger] s[k] != ':')
}

/// Some character is a colon.
pub open spec fn has_colon(s: Seq<char>) -> bool {
    exists|i: int| 0 <= i < s.len() && #[trigger] s[i] == ':'
}

/// The position of the first colon, if any.
fn find_first_colon(s: &str) -> (r: Option<usize>)
    ensures
        r matches Some(i) ==> i < s@.len() && s@[i as int] == ':' && (forall|k: int|
            0 <= k < i ==> #[trigger] s@[k] != ':'),
        r is None ==> !has_colon(s@),
{
    let n: usize = s.unicode_len();
    let mut ci: usize = 0;
    while ci < n
        invariant
            ci <= n,
            n == s@.len(),
            forall|k: int| 0 <= k < ci ==> #[trigger] s@[k] != ':',
        decreases n - ci,
    {
        if s.get_char(ci) == ':' {
            return Some(ci);
        }
        ci = ci + 1;
    }
    None
}

/// Parses an optional plus sign and decimal digits into a `u8`, as `u8`
/// parsing accepts them; `None` on anything else, including values past
/// 255.
fn parse_u8_numeral(s: &str) -> (r: Option<u8>)
    ensures
        r is Some <==> is_u8_numeral(s@),
        r matches Some(v) ==> v == u8_numeral_val(s@),
{
    let n: usize = s.unicode_len();
    let start: usize = if n > 0 && s.get_char(0) == '+' {
        1
    } else {
        0
    };
    let ghost ds: Seq<char> = numeral_digits(s@);
    proof {
        assert(ds =~= s@.subrange(start as int, n as int));
    }
    if start == n {
        return None;
    }
    let mut acc: u32 = 0;
    let mut i: usize = start;
    while i < n
        invariant
            start <= i <= n,
            n == s@.len(),
            start == 1 ==> n > 0 && s@[0] == '+',
            ds == numeral_digits(s@),
            ds =~= s@.subrange(start as int, n as int),
            all_digits(ds.subrange(0, i - start)),
            acc == digits_val(ds.subrange(0, i - start)),
            acc <= 255,
        decreases n - i,
    {
        let c: char = s.get_char(i);
        let v: u32 = c as u32;
        proof {
            assert(ds[i - start] == s@[i as int]);
        }
        if v < 48 || v > 57 {
            proof {
                assert(!is_digit(ds[i - start]));
            }
            return None;
        }
        proof {
            let p = ds.subrange(0, i - start);
            let q = ds.subrange(0, i + 1 - start);
            assert(q.drop_last() =~= p);
            assert(q.last() == ds[i - start]);
        }
        acc = acc * 10 + (v - 48);
        if acc > 255 {
            proof {
                if all_digits(ds) {
                    lemma_digits_val_prefix(ds, i + 1 - start);
                }
            }
            return None;
        }
        i = i + 1;
    }
    proof {
        assert(ds.subrange(0, n - start) =~= ds);
    }
    Some(acc as u8)
}

/// Parses `HH:MM` (hours 0 to 23, minutes 0 to 59) into `(hours,
/// minutes)`, splitting at the first colon.  The error text names what was
/// wrong: the missing colon, hours out of range or unreadable, or minutes
/// out of range or unreadable.
pub fn parse_hhmm(s: &str) -> (r: Result<(u8, u8), String>)
    ensures
        !has_colon(s@) ==> (r matches Err(m) && m@ == "Use HH:MM (e.g., 09:30)"@),
        has_colon(s@) ==> ({
            let i = spec_first_colon(s@);
            let hp = s@.subrange(0, i);
            let mp = s@.subrange(i + 1, s@.len() as int);
            &&& (!is_u8_numeral(hp) ==> (r matches Err(m) && m@ == "Hours must be 0–23"@))
            &&& (is_u8_numeral(hp) && !is_u8_numeral(mp) ==> (r matches Err(m) && m@
                == "Minutes must be 0–59"@))
            &&& (is_u8_numeral(hp) && is_u8_numeral(mp) && u8_numeral_val(hp) > 23 ==> (r
                matches Err(m) && m@ == "Hours must be 0–23"@))
            &&& (is_u8_numeral(hp) && is_u8_numeral(mp) && u8_numeral_val(hp) <= 23
                && u8_numeral_val(mp) > 59 ==> (r matches Err(m) && m@ == "Minutes must be 0–59"@))
            &&& (is_u8_numeral(hp) && is_u8_numeral(mp) && u8_numeral_val(hp) <= 23
                && u8_numeral_val(mp) <= 59 ==> (r matches Ok(v) && v.0 == u8_numeral_val(hp)
                && v.1 == u8_numeral_val(mp)))
        }),
{
    let n: usize = s.unicode_len();
    let ci: usize = match find_first_colon(s) {
        Some(i) => i,
        None => {
            return Err("Use HH:MM (e.g., 09:30)".to_owned());
        },
    };
    proof {
        let w: int = ci as int;
        assert(exists|i: int|
            0 <= i < s@.len() && s@[i] == ':' && (forall|k: int|
                0 <= k < i ==> #[trigger] s@[k] != ':')) by {
            assert(0 <= w < s@.len() && s@[w] == ':' && (forall|k: int|
                0 <= k < w ==> #[trigger] s@[k] != ':'));
        }
        assert(has_colon(s@));
        let j = spec_first_colon(s@);
        assert(0 <= j < s@.len() && s@[j] == ':' && (forall|k: int|
            0 <= k < j ==> #[trigger] s@[k] != ':'));
        assert(j == w);
    }
    let hp: &str = s.substring_char(0, ci);
    let mp: &str = s.substring_char(ci + 1, n);
    let h: u8 = match parse_u8_numeral(hp) {
        Some(v) => v,
        None => {
            return Err("Hours must be 0–23".to_owned());
        },
    };
    let m: u8 = match parse_u8_numeral(mp) {
        Some(v) => v,
        None => {
            return Err("Minutes must be 0–59".to_owned());
        },
    };
    if h > 23 {
        return Err("Hours must be 0–23".to_owned());
    }
    if m > 59 {
        return Err("Minutes must be 0–59".to_owned());
    }
    Ok((h, m))
}

/// The interactive front end's guard before a correction is submitted:
/// rejects an updated time of day (in minutes since midnight) that would
/// invert the session's interval — a start moved past a known end, or an
/// end moved before the start.  The store itself accepts an inverting
/// correction; this guard is the only defence.
pub fn validate_correction_time(
    kind: CorrectionKind,
    start_min: u32,
    end_min: Option<u32>,
    updated_min: u32,
) -> (r: Result<(), String>)
    ensures
        kind is Start && end_min is None ==> r is Ok,
        end_min matches Some(e) ==> (kind is Start ==> (if updated_min > e {
            r matches Err(m) && m@ == "Start can't be after end!"@
        } else {
            r is Ok
        })),
        kind is End ==> (if updated_min < start_min {
            r matches Err(m) && m@ == "Start can't be after end!"@
        } else {
            r is Ok
        }),
{
    match (kind, end_min) {
        (CorrectionKind::Start, Some(e)) => {
            if updated_min > e {
                Err("Start can't be after end!".to_owned())
            } else {
                Ok(())
            }
        },
        (CorrectionKind::End, _) => {
            if updated_min < start_min {
                Err("Start can't be after end!".to_owned())
            } else {
                Ok(())
            }
        },
        _ => Ok(()),
    }
}

/// Correcting the most recent session and then reading the store reflects
/// the update, not the original: after a Correct of the start time the
/// last session carries the corrected start and its old end, a Status on
/// a still-open session must report the corrected time, and a report's
/// aggregate shifts by exactly the difference the rewritten session
/// makes.
pub proof fn lemma_correct_round_trip(
    s: Seq<WorktimeSession>,
    hours: u8,
    minutes: u8,
    now: Timestamp,
)
    requires
        s.len() > 0,
    ensures
        ({
            let sess = s[s.len() - 1];
            let t = spec_corrected_time(sess, hours, minutes);
            let s2 = s.update(
                s.len() - 1,
                spec_apply_correction(sess, CorrectionKind::Start, hours, minutes),
            );
            &&& s2.len() == s.len()
            &&& s2.last().start == t
            &&& s2.last().end == sess.end
            &&& (sess.end is None ==> (forall|r: CommandResult|
                status_post(s2, r) ==> (r matches Ok(m) && m@ == running_since_chars(t))))
            &&& spec_aggregate(s2, now) == spec_aggregate(s, now) - crate::time::session_seconds(
                sess,
                now,
            ) + crate::time::session_seconds(s2.last(), now)
        }),
{
    let sess = s[s.len() - 1];
    let s2 = s.update(
        s.len() - 1,
        spec_apply_correction(sess, CorrectionKind::Start, hours, minutes),
    );
    crate::time::lemma_aggregate_update(
        s,
        s.len() - 1,
        spec_apply_correction(sess, CorrectionKind::Start, hours, minutes),
        now,
    );
    assert(s2.last() == spec_apply_correction(sess, CorrectionKind::Start, hours, minutes));
}

} // verus!
