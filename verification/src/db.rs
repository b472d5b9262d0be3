//! The session store: an ordered collection of work sessions with the
//! store-level invariants (ids strictly increasing, at most one open
//! session, calendar-valid timestamps), its query and mutation operations,
//! and the consistency audit.
//!
//! The store owns the authoritative in-memory copy of the session list; a
//! host process that persists sessions loads them through
//! [`WorktimeDatabase::new`], which audits the data and refuses corrupt
//! state, and writes the list back after mutations.

use vstd::prelude::*;

use crate::err::{CommandError, CorruptionError};
use crate::time::{Timestamp, effective_end, spec_total_seconds, total_seconds};

verus! {

/// Identifier of a session; assigned by the store, strictly increasing in
/// creation order.
#[derive(Debug, Clone, Copy, PartialEq, Eq, Structural)]
pub struct WorktimeSessionId(pub u32);

/// One contiguous span of tracked work time.  An absent `end` means the
/// session is open (currently running).
#[derive(Debug, Clone, Copy, PartialEq, Eq)]
pub struct WorktimeSession {
    pub id: WorktimeSessionId,
    pub start: Timestamp,
    pub end: Option<Timestamp>,
}

/// `s` with its end overwritten.
pub open spec fn with_end(s: WorktimeSession, t: Timestamp) -> WorktimeSession {
    WorktimeSession { id: s.id, start: s.start, end: Some(t) }
}

/// `s` with its start overwritten.
pub open spec fn with_start(s: WorktimeSession, t: Timestamp) -> WorktimeSession {
    WorktimeSession { id: s.id, start: t, end: s.end }
}

/// 1 for an open session, 0 for a closed one.
pub open spec fn open_weight(s: WorktimeSession) -> int {
    if s.end is None {
        1
    } else {
        0
    }
}

/// How many sessions of the list are open.
pub open spec fn open_count(s: Seq<WorktimeSession>) -> int
    decreases s.len(),
{
    if s.len() == 0 {
        0
    } else {
        open_count(s.drop_last()) + open_weight(s.last())
    }
}

/// Ids strictly increase along the list, so they are unique and their
/// order is the creation order.
pub open spec fn ids_increasing(s: Seq<WorktimeSession>) -> bool {
    forall|i: int, j: int|
        0 <= i < j < s.len() ==> (#[trigger] s[i]).id.0 < (#[trigger] s[j]).id.0
}

/// Both timestamps of the session are calendar-valid.
pub open spec fn session_valid(s: WorktimeSession) -> bool {
    &&& s.start.valid()
    &&& (s.end matches Some(e) ==> e.valid())
}

/// Every session of the list is calendar-valid.
pub open spec fn sessions_valid(s: Seq<WorktimeSession>) -> bool {
    forall|i: int| 0 <= i < s.len() ==> session_valid(#[trigger] s[i])
}

/// Some session of the list carries this id.
pub open spec fn has_id(s: Seq<WorktimeSession>, id: WorktimeSessionId) -> bool {
    exists|i: int| 0 <= i < s.len() && (#[trigger] s[i]).id == id
}

/// The position of the session carrying this id (unique when ids
/// increase).
pub open spec fn spec_index_of_id(s: Seq<WorktimeSession>, id: WorktimeSessionId) -> int {
    choose|i: int| 0 <= i < s.len() && (#[trigger] s[i]).id == id
}

/// The id the store will assign next: one past the last id, starting at 1.
pub open spec fn spec_next_id(s: Seq<WorktimeSession>) -> int {
    if s.len() == 0 {
        1
    } else {
        s.last().id.0 + 1
    }
}

proof fn lemma_open_count_update(s: Seq<WorktimeSession>, i: int, x: WorktimeSession)
    requires
        0 <= i < s.len(),
    ensures
        open_count(s.update(i, x)) == open_count(s) - open_weight(s[i]) + open_weight(x),
    decreases s.len(),
{
    let t = s.update(i, x);
    if i == s.len() - 1 {
        assert(t.drop_last() =~= s.drop_last());
        assert(t.last() == x);
    } else {
        assert(t.drop_last() =~= s.drop_last().update(i, x));
        lemma_open_count_update(s.drop_last(), i, x);
        assert(t.last() == s.last());
    }
}

proof fn lemma_open_count_push(s: Seq<WorktimeSession>, x: WorktimeSession)
    ensures
        open_count(s.push(x)) == open_count(s) + open_weight(x),
{
    assert(s.push(x).drop_last() =~= s);
    assert(s.push(x).last() == x);
}

/// Counts the open sessions of the list.
fn count_open_sessions(v: &Vec<WorktimeSession>) -> (r: usize)
    ensures
        r == open_count(v@),
{
    let mut cnt: usize = 0;
    let mut i: usize = 0;
    while i < v.len()
        invariant
            i <= v@.len(),
            cnt <= i,
            cnt == open_count(v@.subrange(0, i as int)),
        decreases v@.len() - i,
    {
        proof {
            assert(v@.subrange(0, i + 1).drop_last() =~= v@.subrange(0, i as int));
            assert(v@.subrange(0, i + 1).last() == v@[i as int]);
        }
        if v[i].end.is_none() {
            cnt = cnt + 1;
        }
        i = i + 1;
    }
    proof {
        assert(v@.subrange(0, v@.len() as int) =~= v@);
    }
    cnt
}

/// The position of the session with this id, if any.
fn find_index_of_id(v: &Vec<WorktimeSession>, id: WorktimeSessionId) -> (r: Option<usize>)
    ensures
        r matches Some(i) ==> i < v@.len() && v@[i as int].id == id,
        r is None ==> !has_id(v@, id),
{
    let mut i: usize = 0;
    while i < v.len()
        invariant
            i <= v@.len(),
            forall|k: int| 0 <= k < i ==> (#[trigger] v@[k]).id != id,
        decreases v@.len() - i,
    {
        if v[i].id.0 == id.0 {
            return Some(i);
        }
        i = i + 1;
    }
    None
}

/// The predicate a report filters by: the session's start date lies on or
/// after `day`.
pub open spec fn started_on_or_after(day: crate::time::Date) -> spec_fn(WorktimeSession) -> bool {
    |s: WorktimeSession| crate::time::spec_date_le(day, s.start.date)
}

/// The sessions whose start date lies on or after `day`, in store order.
pub open spec fn sessions_since(s: Seq<WorktimeSession>, day: crate::time::Date) -> Seq<
    WorktimeSession,
> {
    s.filter(started_on_or_after(day))
}

/// `a` before `b` in the audit order: by start time, ties broken by id.
pub open spec fn key_lt(a: WorktimeSession, b: WorktimeSession) -> bool {
    ||| spec_total_seconds(a.start) < spec_total_seconds(b.start)
    ||| (spec_total_seconds(a.start) == spec_total_seconds(b.start) && a.id.0 < b.id.0)
}

/// No closed session ends strictly before it starts.
pub open spec fn no_inverted(s: Seq<WorktimeSession>) -> bool {
    forall|i: int|
        0 <= i < s.len() ==> ((#[trigger] s[i]).end matches Some(e) ==> spec_total_seconds(e)
            >= spec_total_seconds(s[i].start))
}

/// Ordered by start time (ties by id), each session ends — an open one
/// effectively ends at `now` — no later than the next one starts.
pub open spec fn no_overlap(s: Seq<WorktimeSession>, now: Timestamp) -> bool {
    forall|i: int, j: int|
        0 <= i < s.len() && 0 <= j < s.len() && i != j && key_lt(#[trigger] s[i], #[trigger] s[j])
            ==> spec_total_seconds(effective_end(s[i], now)) <= spec_total_seconds(s[j].start)
}

/// The audited invariants of a committed session set, evaluated at `now`.
pub open spec fn consistent(s: Seq<WorktimeSession>, now: Timestamp) -> bool {
    &&& open_count(s) <= 1
    &&& no_inverted(s)
    &&& no_overlap(s, now)
}

/// The consistency audit: scans the full session set and reports the first
/// corruption found — more than one open session, a closed session whose
/// end lies before its start, or two sessions that overlap when ordered by
/// start time (an open session effectively ends at `now` for this check
/// only).  The audit never repairs anything; the host must abort on a
/// finding.
pub fn consistency_check(sessions: &Vec<WorktimeSession>, now: Timestamp) -> (r: Result<
    (),
    CorruptionError,
>)
    ensures
        r is Ok <==> consistent(sessions@, now),
        r matches Err(CorruptionError::MultipleOpenSessions { count }) ==> count == open_count(
            sessions@,
        ) && count > 1,
        r matches Err(CorruptionError::InvertedSession { id }) ==> exists|i: int|
            0 <= i < sessions@.len() && (#[trigger] sessions@[i]).id == id && (sessions@[i].end
                matches Some(e) && spec_total_seconds(e) < spec_total_seconds(sessions@[i].start)),
        r matches Err(CorruptionError::SessionOverlap { id }) ==> exists|i: int, j: int|
            0 <= i < sessions@.len() && 0 <= j < sessions@.len() && i != j && (
            #[trigger] sessions@[j]).id == id && key_lt(#[trigger] sessions@[i], sessions@[j])
                && spec_total_seconds(effective_end(sessions@[i], now)) > spec_total_seconds(
                sessions@[j].start,
            ),
        r is Err ==> (r matches Err(e) && (e is MultipleOpenSessions || e is InvertedSession
            || e is SessionOverlap)),
{
    let n: usize = sessions.len();
    let opens: usize = count_open_sessions(sessions);
    if opens > 1 {
        return Err(CorruptionError::MultipleOpenSessions { count: opens });
    }
    let mut i: usize = 0;
    while i < n
        invariant
            n == sessions@.len(),
            i <= n,
            forall|k: int|
                0 <= k < i ==> ((#[trigger] sessions@[k]).end matches Some(e)
                    ==> spec_total_seconds(e) >= spec_total_seconds(sessions@[k].start)),
        decreases n - i,
    {
        let s: WorktimeSession = sessions[i];
        if let Some(e) = s.end {
            if total_seconds(e) < total_seconds(s.start) {
                return Err(CorruptionError::InvertedSession { id: s.id });
            }
        }
        i = i + 1;
    }
    let mut i: usize = 0;
    while i < n
        invariant
            n == sessions@.len(),
            i <= n,
            forall|a: int, b: int|
                0 <= a < i && 0 <= b < n && a != b && key_lt(
                    #[trigger] sessions@[a],
                    #[trigger] sessions@[b],
                ) ==> spec_total_seconds(effective_end(sessions@[a], now)) <= spec_total_seconds(
                    sessions@[b].start,
                ),
        decreases n - i,
    {
        let si: WorktimeSession = sessions[i];
        let eff_i: i64 = match si.end {
            Some(e) => total_seconds(e),
            None => total_seconds(now),
        };
        let start_i: i64 = total_seconds(si.start);
        let id_i: u32 = si.id.0;
        let mut j: usize = 0;
        while j < n
            invariant
                n == sessions@.len(),
                i < n,
                j <= n,
                si == sessions@[i as int],
                eff_i == spec_total_seconds(effective_end(si, now)),
                start_i == spec_total_seconds(si.start),
                id_i == si.id.0,
                forall|b: int|
                    0 <= b < j && i != b && key_lt(si, #[trigger] sessions@[b])
                        ==> spec_total_seconds(effective_end(si, now)) <= spec_total_seconds(
                        sessions@[b].start,
                    ),
            decreases n - j,
        {
            if j != i {
                let sj: WorktimeSession = sessions[j];
                let start_j: i64 = total_seconds(sj.start);
                let first: bool = start_i < start_j || (start_i == start_j && id_i < sj.id.0);
                if first && eff_i > start_j {
                    return Err(CorruptionError::SessionOverlap { id: sj.id });
                }
            }
            j = j + 1;
        }
        i = i + 1;
    }
    Ok(())
}

/// The persistent ordered collection of sessions.
pub struct WorktimeDatabase {
    sessions: Vec<WorktimeSession>,
}

impl View for WorktimeDatabase {
    type V = Seq<WorktimeSession>;

    closed spec fn view(&self) -> Seq<WorktimeSession> {
        self.sessions@
    }
}

impl WorktimeDatabase {
    /// The store invariant: ids strictly increase, at most one session is
    /// open, and every timestamp is calendar-valid.
    pub open spec fn wf(self) -> bool {
        &&& ids_increasing(self@)
        &&& open_count(self@) <= 1
        &&& sessions_valid(self@)
    }

    /// The next id fits the id type.
    pub open spec fn can_insert(self) -> bool {
        self@.len() == 0 || self@.last().id.0 < u32::MAX
    }

    /// Builds a store from a loaded session list, auditing it first: the
    /// ids must strictly increase (they are the primary key, handed over
    /// in key order), every timestamp must be calendar-valid, and the
    /// consistency audit must pass.  A failed audit is corruption: the
    /// caller must abort, not continue.
    pub fn new(sessions: Vec<WorktimeSession>, now: Timestamp) -> (r: Result<
        WorktimeDatabase,
        CorruptionError,
    >)
        ensures
            r is Ok <==> (ids_increasing(sessions@) && sessions_valid(sessions@) && consistent(
                sessions@,
                now,
            )),
            r matches Ok(db) ==> db@ == sessions@ && db.wf(),
            r matches Err(CorruptionError::NonIncreasingIds) ==> !ids_increasing(sessions@),
            r matches Err(CorruptionError::InvalidTimestamp { id }) ==> exists|i: int|
                0 <= i < sessions@.len() && (#[trigger] sessions@[i]).id == id && !session_valid(
                    sessions@[i],
                ),
            (r matches Err(e) && (e is MultipleOpenSessions || e is InvertedSession
                || e is SessionOverlap)) ==> !consistent(sessions@, now),
    {
        let n: usize = sessions.len();
        let mut i: usize = 1;
        while i < n
            invariant
                n == sessions@.len(),
                1 <= i,
                i == 1 || i <= n,
                forall|k: int| 0 < k < i ==> (#[trigger] sessions@[k]).id.0 > sessions@[k - 1].id.0,
            decreases n - i,
        {
            if sessions[i - 1].id.0 >= sessions[i].id.0 {
                proof {
                    assert(!ids_increasing(sessions@));
                }
                return Err(CorruptionError::NonIncreasingIds);
            }
            i = i + 1;
        }
        proof {
            lemma_adjacent_ids_increasing(sessions@);
        }
        let mut i: usize = 0;
        while i < n
            invariant
                n == sessions@.len(),
                i <= n,
                forall|k: int| 0 <= k < i ==> session_valid(#[trigger] sessions@[k]),
            decreases n - i,
        {
            let s: WorktimeSession = sessions[i];
            let end_ok: bool = match s.end {
                Some(e) => e.is_valid(),
                None => true,
            };
            if !(s.start.is_valid() && end_ok) {
                return Err(CorruptionError::InvalidTimestamp { id: s.id });
            }
            i = i + 1;
        }
        match consistency_check(&sessions, now) {
            Ok(()) => Ok(WorktimeDatabase { sessions }),
            Err(e) => Err(e),
        }
    }

    /// The full session list, ascending by id, for the host to persist.
    pub fn sessions(&self) -> (r: &Vec<WorktimeSession>)
        ensures
            r@ == self@,
    {
        &self.sessions
    }

    /// Whether the store can still assign a fresh id (checks
    /// [`WorktimeDatabase::can_insert`]).
    pub fn has_id_headroom(&self) -> (r: bool)
        ensures
            r == self.can_insert(),
    {
        self.sessions.len() == 0 || self.sessions[self.sessions.len() - 1].id.0 < u32::MAX
    }

    /// The most recent session by id; `None` when the store is empty.
    pub fn get_last_session(&self) -> (r: Option<WorktimeSession>)
        ensures
            self@.len() == 0 ==> r is None,
            self@.len() > 0 ==> r == Some(self@.last()),
    {
        if self.sessions.len() == 0 {
            None
        } else {
            Some(self.sessions[self.sessions.len() - 1])
        }
    }

    /// The most recent `n` sessions, descending by id.
    pub fn get_last_n_sessions(&self, n: u32) -> (r: Vec<WorktimeSession>)
        ensures
            r@.len() == vstd::math::min(n as int, self@.len() as int),
            forall|i: int| 0 <= i < r@.len() ==> r@[i] == self@[self@.len() - 1 - i],
    {
        let mut out: Vec<WorktimeSession> = Vec::new();
        let mut i: usize = 0;
        while i < n as usize && i < self.sessions.len()
            invariant
                i <= self@.len(),
                i <= n as usize,
                out@.len() == i,
                forall|k: int| 0 <= k < i ==> out@[k] == self@[self@.len() - 1 - k],
            decreases self@.len() - i,
        {
            out.push(self.sessions[self.sessions.len() - 1 - i]);
            i = i + 1;
        }
        out
    }

    /// The `nth`-most-recent session (0 is the most recent); `None` when
    /// the store holds fewer sessions.
    pub fn get_nth_last_session(&self, nth: u32) -> (r: Option<WorktimeSession>)
        ensures
            (nth as int) < self@.len() ==> r == Some(self@[self@.len() - 1 - nth]),
            (nth as int) >= self@.len() ==> r is None,
    {
        if (nth as usize) < self.sessions.len() {
            Some(self.sessions[self.sessions.len() - 1 - nth as usize])
        } else {
            None
        }
    }

    /// All sessions whose start date is on or after `day`, ascending by
    /// id.
    pub fn get_sessions_since(&self, day: crate::time::Date) -> (r: Vec<WorktimeSession>)
        ensures
            r@ == sessions_since(self@, day),
    {
        let mut out: Vec<WorktimeSession> = Vec::new();
        let mut i: usize = 0;
        while i < self.sessions.len()
            invariant
                i <= self@.len(),
                out@ == sessions_since(self@.subrange(0, i as int), day),
            decreases self@.len() - i,
        {
            let s: WorktimeSession = self.sessions[i];
            proof {
                reveal(Seq::filter);
                assert(self@.subrange(0, i + 1).drop_last() =~= self@.subrange(0, i as int));
                assert(self@.subrange(0, i + 1).last() == self@[i as int]);
            }
            if crate::time::date_le(day, s.start.date) {
                out.push(s);
            }
            i = i + 1;
        }
        proof {
            assert(self@.subrange(0, self@.len() as int) =~= self@);
        }
        out
    }

    /// The session with this id; fails with the store's not-found error
    /// when no session carries it.
    pub fn get_session_by_id(&self, id: WorktimeSessionId) -> (r: Result<
        WorktimeSession,
        CommandError,
    >)
        requires
            self.wf(),
        ensures
            has_id(self@, id) ==> r == Ok::<WorktimeSession, CommandError>(
                self@[spec_index_of_id(self@, id)],
            ),
            !has_id(self@, id) ==> (r matches Err(e) && e matches CommandError::DatabaseError(m)
                && m@ == crate::err::row_not_found_chars()),
    {
        match find_index_of_id(&self.sessions, id) {
            Some(i) => {
                proof {
                    lemma_index_of_id(self@, id, i as int);
                }
                Ok(self.sessions[i])
            },
            None => Err(crate::err::row_not_found_error()),
        }
    }

    /// Creates a new open session starting at `now` and returns `now`;
    /// fails with the "Session already started" logic error — and changes
    /// nothing — when an open session exists.  The store invariant rules a
    /// second open session out statically, so the corrupt multi-open case
    /// cannot arise here.
    pub fn insert_start(&mut self, now: Timestamp) -> (r: Result<Timestamp, CommandError>)
        requires
            old(self).wf(),
            now.valid(),
            old(self).can_insert(),
        ensures
            final(self).wf(),
            open_count(old(self)@) > 0 ==> (r matches Err(e) && e matches CommandError::Other(m)
                && m@ == crate::err::already_started_chars()) && final(self)@ == old(self)@,
            open_count(old(self)@) == 0 ==> (r matches Ok(t) && t == now) && final(self)@ == old(
                self,
            )@.push(
                WorktimeSession {
                    id: WorktimeSessionId(spec_next_id(old(self)@) as u32),
                    start: now,
                    end: None,
                },
            ),
    {
        let opens: usize = count_open_sessions(&self.sessions);
        if opens > 0 {
            return Err(crate::err::already_started_error());
        }
        let next: u32 = if self.sessions.len() == 0 {
            1
        } else {
            self.sessions[self.sessions.len() - 1].id.0 + 1
        };
        let fresh: WorktimeSession = WorktimeSession {
            id: WorktimeSessionId(next),
            start: now,
            end: None,
        };
        proof {
            let s = self@;
            lemma_open_count_push(s, fresh);
            assert forall|i: int, j: int| 0 <= i < j < s.push(fresh).len() implies (#[trigger] s.push(
                fresh,
            )[i]).id.0 < (#[trigger] s.push(fresh)[j]).id.0 by {
                if j < s.len() {
                    assert(s[i].id.0 < s[j].id.0);
                } else if i < s.len() - 1 {
                    assert(s[i].id.0 < s[s.len() - 1].id.0);
                }
            }
        }
        self.sessions.push(fresh);
        Ok(now)
    }

    /// Sets `end = now` on the session with this id and returns `now`;
    /// fails with the store's not-found error when the id is absent.
    pub fn insert_stop(&mut self, id: WorktimeSessionId, now: Timestamp) -> (r: Result<
        Timestamp,
        CommandError,
    >)
        requires
            old(self).wf(),
            now.valid(),
        ensures
            final(self).wf(),
            !has_id(old(self)@, id) ==> (r matches Err(e) && e
                matches CommandError::DatabaseError(m) && m@ == crate::err::row_not_found_chars())
                && final(self)@ == old(self)@,
            has_id(old(self)@, id) ==> (r matches Ok(t) && t == now) && final(self)@ == old(
                self,
            )@.update(
                spec_index_of_id(old(self)@, id),
                with_end(old(self)@[spec_index_of_id(old(self)@, id)], now),
            ),
    {
        match self.update_end_time(id, now) {
            Ok(()) => Ok(now),
            Err(e) => Err(e),
        }
    }

    /// Overwrites the start of the session with this id; fails with the
    /// store's not-found error when the id is absent.
    pub fn update_start_time(&mut self, id: WorktimeSessionId, date_time: Timestamp) -> (r: Result<
        (),
        CommandError,
    >)
        requires
            old(self).wf(),
            date_time.valid(),
        ensures
            final(self).wf(),
            !has_id(old(self)@, id) ==> (r matches Err(e) && e
                matches CommandError::DatabaseError(m) && m@ == crate::err::row_not_found_chars())
                && final(self)@ == old(self)@,
            has_id(old(self)@, id) ==> r is Ok && final(self)@ == old(self)@.update(
                spec_index_of_id(old(self)@, id),
                with_start(old(self)@[spec_index_of_id(old(self)@, id)], date_time),
            ),
    {
        match find_index_of_id(&self.sessions, id) {
            Some(i) => {
                let s: WorktimeSession = self.sessions[i];
                let updated: WorktimeSession = WorktimeSession {
                    id: s.id,
                    start: date_time,
                    end: s.end,
                };
                proof {
                    lemma_index_of_id(self@, id, i as int);
                    lemma_open_count_update(self@, i as int, updated);
                    lemma_update_keeps_ids_increasing(self@, i as int, updated);
                }
                self.sessions.set(i, updated);
                Ok(())
            },
            None => Err(crate::err::row_not_found_error()),
        }
    }

    /// Overwrites the end of the session with this id; fails with the
    /// store's not-found error when the id is absent.
    pub fn update_end_time(&mut self, id: WorktimeSessionId, date_time: Timestamp) -> (r: Result<
        (),
        CommandError,
    >)
        requires
            old(self).wf(),
            date_time.valid(),
        ensures
            final(self).wf(),
            !has_id(old(self)@, id) ==> (r matches Err(e) && e
                matches CommandError::DatabaseError(m) && m@ == crate::err::row_not_found_chars())
                && final(self)@ == old(self)@,
            has_id(old(self)@, id) ==> r is Ok && final(self)@ == old(self)@.update(
                spec_index_of_id(old(self)@, id),
                with_end(old(self)@[spec_index_of_id(old(self)@, id)], date_time),
            ),
    {
        match find_index_of_id(&self.sessions, id) {
            Some(i) => {
                let s: WorktimeSession = self.sessions[i];
                let updated: WorktimeSession = WorktimeSession {
                    id: s.id,
                    start: s.start,
                    end: Some(date_time),
                };
                proof {
                    lemma_index_of_id(self@, id, i as int);
                    lemma_open_count_update(self@, i as int, updated);
                    lemma_update_keeps_ids_increasing(self@, i as int, updated);
                }
                self.sessions.set(i, updated);
                Ok(())
            },
            None => Err(crate::err::row_not_found_error()),
        }
    }
}

/// For every well-formed store — in particular after any sequence of
/// alternating Start and Stop transitions from the empty store, since each
/// operation's contract preserves well-formedness — at most one session is
/// open.
pub proof fn lemma_at_most_one_open(db: WorktimeDatabase)
    requires
        db.wf(),
    ensures
        open_count(db@) <= 1,
{
}

proof fn lemma_adjacent_ids_increasing(s: Seq<WorktimeSession>)
    requires
        forall|k: int| 0 < k < s.len() ==> (#[trigger] s[k]).id.0 > s[k - 1].id.0,
    ensures
        ids_increasing(s),
{
    assert forall|i: int, j: int| 0 <= i < j < s.len() implies (#[trigger] s[i]).id.0 < (
    #[trigger] s[j]).id.0 by {
        lemma_ids_chain(s, i, j);
    }
}

proof fn lemma_ids_chain(s: Seq<WorktimeSession>, i: int, j: int)
    requires
        forall|k: int| 0 < k < s.len() ==> (#[trigger] s[k]).id.0 > s[k - 1].id.0,
        0 <= i < j < s.len(),
    ensures
        s[i].id.0 < s[j].id.0,
    decreases j - i,
{
    if i + 1 < j {
        lemma_ids_chain(s, i + 1, j);
    }
}

/// With strictly increasing ids, an id determines its position: a session
/// found at position `i` is the one `spec_index_of_id` names.
pub proof fn lemma_index_of_id(s: Seq<WorktimeSession>, id: WorktimeSessionId, i: int)
    requires
        ids_increasing(s),
        0 <= i < s.len(),
        s[i].id == id,
    ensures
        has_id(s, id),
        spec_index_of_id(s, id) == i,
{
    assert(has_id(s, id));
    let j = spec_index_of_id(s, id);
    assert(0 <= j < s.len() && s[j].id == id);
    if i < j {
        assert(s[i].id.0 < s[j].id.0);
    } else if j < i {
        assert(s[j].id.0 < s[i].id.0);
    }
}

proof fn lemma_update_keeps_ids_increasing(s: Seq<WorktimeSession>, i: int, x: WorktimeSession)
    requires
        ids_increasing(s),
        0 <= i < s.len(),
        x.id == s[i].id,
    ensures
        ids_increasing(s.update(i, x)),
{
    let t = s.update(i, x);
    assert forall|a: int, b: int| 0 <= a < b < t.len() implies (#[trigger] t[a]).id.0 < (
    #[trigger] t[b]).id.0 by {
        assert(s[a].id.0 < s[b].id.0);
    }
}

/// An empty store, as a fresh test database starts out.
pub fn get_test_worktime_db() -> (db: WorktimeDatabase)
    ensures
        db@ == Seq::<WorktimeSession>::empty(),
        db.wf(),
{
    let db = WorktimeDatabase { sessions: Vec::new() };
    proof {
        assert(db@ =~= Seq::<WorktimeSession>::empty());
    }
    db
}

} // verus!
