//! The Daily Session: starting and ending a day, each in one transaction,
//! and the chain of objectives carried from one day to the next.

use vstd::prelude::*;
use crate::error::{CoreError, ErrorCode};
use crate::text;
use crate::sqlite::{
    self, commits, extends, keyed, lemma_extends_refl, lemma_extends_trans, lemma_push, lemma_step,
    Event, SqlValue, Trace,
};
use crate::storage::{finish, outcome_well_formed, run, sql, SqliteStorage};

verus! {

/// Whether a day is still open or was closed.
#[derive(Clone, Copy, Debug, PartialEq, Eq, Structural)]
pub enum SessionStatus {
    Active,
    Completed,
}

/// What becomes of an objective.
#[derive(Clone, Copy, Debug, PartialEq, Eq, Structural)]
pub enum ObjectiveStatus {
    Pending,
    Completed,
    Dropped,
}

pub open spec fn objective_status_word(status: ObjectiveStatus) -> Seq<char> {
    match status {
        ObjectiveStatus::Pending => "pending"@,
        ObjectiveStatus::Completed => "completed"@,
        ObjectiveStatus::Dropped => "dropped"@,
    }
}

impl ObjectiveStatus {
    /// The word an objective's status is stored as.
    pub fn as_str(&self) -> (word: &'static str)
        ensures
            word@ == objective_status_word(*self),
    {
        proof {
            reveal_strlit("pending");
            reveal_strlit("completed");
            reveal_strlit("dropped");
        }
        match self {
            ObjectiveStatus::Pending => "pending",
            ObjectiveStatus::Completed => "completed",
            ObjectiveStatus::Dropped => "dropped",
        }
    }
}

/// The session status stored as `word`, if it is one.
pub open spec fn spec_session_status(word: Seq<char>) -> Option<SessionStatus> {
    if word == "active"@ {
        Some(SessionStatus::Active)
    } else if word == "completed"@ {
        Some(SessionStatus::Completed)
    } else {
        None
    }
}

/// Reads a stored session status.
pub fn parse_session_status(word: &str) -> (r: Option<SessionStatus>)
    ensures
        r == spec_session_status(word@),
{
    proof {
        reveal_strlit("active");
        reveal_strlit("completed");
    }
    if text::same_text(word, "active") {
        Some(SessionStatus::Active)
    } else if text::same_text(word, "completed") {
        Some(SessionStatus::Completed)
    } else {
        None
    }
}

/// A day about to start: its id, its date (`YYYY-MM-DD`), a note and when it
/// started, as stored.
#[derive(Debug)]
pub struct NewDailySession {
    pub id: String,
    pub day: String,
    pub note: String,
    pub started_at: String,
}

/// An objective set for a day, as stored; it starts `pending`.
#[derive(Debug)]
pub struct NewDailyObjective {
    pub id: String,
    pub session_id: String,
    pub title: String,
    pub description: String,
    pub link_kind: Option<String>,
    pub link_id: Option<String>,
    pub priority: String,
    pub position: i64,
    pub carried_from: Option<String>,
    pub created_at: String,
}

/// The reflection written when a day ends: the stored mood word, if any,
/// and a summary.
#[derive(Debug)]
pub struct NewDailyReflection {
    pub mood: Option<String>,
    pub summary: String,
}

/// A day as stored.
#[derive(Debug)]
pub struct DailySession {
    pub id: String,
    pub day: String,
    pub status: SessionStatus,
    pub note: String,
    pub started_at: String,
    pub ended_at: Option<String>,
    pub created_at: String,
    pub updated_at: String,
}

pub const OTHER_OPEN_DAYS: &'static str = "SELECT count(*) FROM daily_sessions WHERE status = 'active' AND id <> ?1";

pub const REOPEN_SESSION: &'static str = "UPDATE daily_sessions SET status = 'active', ended_at = NULL, updated_at = ?2 WHERE id = ?1";

pub const DELETE_OBJECTIVE: &'static str = "DELETE FROM daily_objectives WHERE id = ?1";

pub open spec fn other_day_open_message() -> Seq<char> {
    "Ja existe um dia aberto. Encerre ele antes de reabrir outro."@
}

/// The reopening of the session at `now`.
pub open spec fn session_reopened(e: Event, session: Seq<char>, now: Seq<char>) -> bool {
    e matches Event::Execute(q, v) && q == REOPEN_SESSION@ && v.len() == 2 && is_text(v[0], session) && is_text(
        v[1],
        now,
    )
}

/// The read of a session by its id that found `d`.
pub open spec fn session_read(e: Event, id: Seq<char>, d: DailySession) -> bool {
    e matches Event::ReadRow(q, v, Some(row)) && q == SESSION_BY_ID@ && keyed(v, id) && holds_session(row, d)
}

pub const CARRIED_FROM: &'static str = "SELECT carried_from FROM daily_objectives WHERE id = ?1";

/// What a read of the chain answered, if it answered a link.
pub open spec fn answered(e: Event) -> Option<Seq<char>> {
    match e {
        Event::ReadOptionalText(q, v, answer) => answer,
        _ => None,
    }
}

/// The objective the `j`-th read of the chain starting at `id` asks about:
/// `id` itself, then what each read answered.
pub open spec fn link_at(e: Seq<Event>, b: int, id: Seq<char>, j: int) -> Seq<char> {
    if j <= 0 {
        id
    } else {
        match answered(e[b + j - 1]) {
            Some(next) => next,
            None => Seq::empty(),
        }
    }
}

/// The `j`-th read of the chain asks `carried_from` of the objective it
/// should, and answers a link exactly when `found`.
pub open spec fn chain_read(e: Seq<Event>, b: int, id: Seq<char>, j: int, found: bool) -> bool {
    e[b + j] matches Event::ReadOptionalText(q, v, answer) && q == CARRIED_FROM@ && keyed(
        v,
        link_at(e, b, id, j),
    ) && (answer is Some) == found
}

pub const DAY_TAKEN: &'static str = "SELECT count(*) FROM daily_sessions WHERE day = ?1";

pub const CLOSE_STALE_SESSIONS: &'static str = "UPDATE daily_sessions SET status = 'completed', ended_at = ?2, updated_at = ?2 WHERE status = 'active' AND day < ?1";

pub const INSERT_SESSION: &'static str = "INSERT INTO daily_sessions (id, day, status, note, started_at, ended_at, created_at, updated_at) VALUES (?1, ?2, 'active', ?3, ?4, NULL, ?5, ?5)";

pub const INSERT_OBJECTIVE: &'static str = "INSERT INTO daily_objectives (id, session_id, title, description, link_kind, link_id, priority, status, position, carried_from, created_at, updated_at, completed_at) VALUES (?1, ?2, ?3, ?4, ?5, ?6, ?7, 'pending', ?8, ?9, ?10, ?10, NULL)";

pub const RESOLVE_OBJECTIVE: &'static str = "UPDATE daily_objectives SET status = ?3, completed_at = ?4, updated_at = ?5 WHERE id = ?1 AND session_id = ?2";

pub const UPSERT_REFLECTION: &'static str = "INSERT INTO daily_reflections (session_id, mood, summary, created_at, updated_at) VALUES (?1, ?2, ?3, ?4, ?4) ON CONFLICT(session_id) DO UPDATE SET mood = ?2, summary = ?3, updated_at = ?4";

pub const CLOSE_SESSION: &'static str = "UPDATE daily_sessions SET status = 'completed', ended_at = ?2, updated_at = ?2 WHERE id = ?1";

pub const SESSION_BY_ID: &'static str = "SELECT id, day, status, note, started_at, ended_at, created_at, updated_at FROM daily_sessions WHERE id = ?1";

pub open spec fn is_text(v: SqlValue, s: Seq<char>) -> bool {
    v matches SqlValue::Text(t) && t@ == s
}

pub open spec fn is_optional_text(v: SqlValue, o: Option<String>) -> bool {
    match o {
        Some(s) => is_text(v, s@),
        None => v is Null,
    }
}

/// The closing, at `now`, of every session still active before `day`.
pub open spec fn stale_closed(e: Event, day: Seq<char>, now: Seq<char>) -> bool {
    e matches Event::Execute(q, v) && q == CLOSE_STALE_SESSIONS@ && v.len() == 2 && is_text(v[0], day)
        && is_text(v[1], now)
}

/// The insertion of a new, active session.
pub open spec fn session_inserted(e: Event, s: NewDailySession, now: Seq<char>) -> bool {
    e matches Event::Execute(q, v) && q == INSERT_SESSION@ && v.len() == 5 && is_text(v[0], s.id@)
        && is_text(v[1], s.day@) && is_text(v[2], s.note@) && is_text(v[3], s.started_at@) && is_text(
        v[4],
        now,
    )
}

/// The insertion of a new, pending objective.
pub open spec fn objective_inserted(e: Event, o: NewDailyObjective) -> bool {
    e matches Event::Execute(q, v) && q == INSERT_OBJECTIVE@ && v.len() == 10 && is_text(v[0], o.id@)
        && is_text(v[1], o.session_id@) && is_text(v[2], o.title@) && is_text(v[3], o.description@)
        && is_optional_text(v[4], o.link_kind) && is_optional_text(v[5], o.link_id) && is_text(
        v[6],
        o.priority@,
    ) && v[7] == SqlValue::Integer(o.position) && is_optional_text(v[8], o.carried_from) && is_text(
        v[9],
        o.created_at@,
    )
}

/// What a started day shows in the trace from position `b` on: the check
/// that no session holds the day, the closing of the days left open before
/// it, the new session, each objective in order, and the commit.
pub open spec fn day_started(
    e: Seq<Event>,
    b: int,
    s: NewDailySession,
    objectives: Seq<NewDailyObjective>,
    now: Seq<char>,
) -> bool {
    &&& e.len() == b + 4 + objectives.len()
    &&& e[b] matches Event::ReadInteger(q, v, count) && q == DAY_TAKEN@ && keyed(v, s.day@) && count <= 0
    &&& stale_closed(e[b + 1], s.day@, now)
    &&& session_inserted(e[b + 2], s, now)
    &&& forall|i: int| 0 <= i < objectives.len() ==> objective_inserted(e[b + 3 + i], #[trigger] objectives[i])
    &&& e[b + 3 + objectives.len()] is Commit
}

/// The session a start creates.
pub open spec fn is_started(d: DailySession, s: NewDailySession, now: Seq<char>) -> bool {
    &&& d.id@ == s.id@
    &&& d.day@ == s.day@
    &&& d.status == SessionStatus::Active
    &&& d.note@ == s.note@
    &&& d.started_at@ == s.started_at@
    &&& d.ended_at is None
    &&& d.created_at@ == now
    &&& d.updated_at@ == now
}

pub open spec fn day_taken_message() -> Seq<char> {
    "Este dia ja foi iniciado."@
}

/// The resolution of one objective of the session at `now`; only a
/// completed objective gets a completion time.
pub open spec fn resolved(e: Event, resolution: (String, ObjectiveStatus), session: Seq<char>, now: Seq<char>) -> bool {
    e matches Event::Execute(q, v) && q == RESOLVE_OBJECTIVE@ && v.len() == 5 && is_text(v[0], resolution.0@)
        && is_text(v[1], session) && is_text(v[2], objective_status_word(resolution.1)) && (if resolution.1
        == ObjectiveStatus::Completed {
        is_text(v[3], now)
    } else {
        v[3] is Null
    }) && is_text(v[4], now)
}

/// The writing of the day's reflection (one per session) at `now`.
pub open spec fn reflected(e: Event, session: Seq<char>, reflection: NewDailyReflection, now: Seq<char>) -> bool {
    e matches Event::Execute(q, v) && q == UPSERT_REFLECTION@ && v.len() == 4 && is_text(v[0], session)
        && is_optional_text(v[1], reflection.mood) && is_text(v[2], reflection.summary@) && is_text(v[3], now)
}

/// The closing of the session at `now`.
pub open spec fn session_closed(e: Event, session: Seq<char>, now: Seq<char>) -> bool {
    e matches Event::Execute(q, v) && q == CLOSE_SESSION@ && v.len() == 2 && is_text(v[0], session) && is_text(
        v[1],
        now,
    )
}

/// A count of changed rows that is not zero.
pub open spec fn changed_some(e: Event) -> bool {
    e matches Event::Changed(c) && c > 0
}

/// The first `count` resolutions, in order from position `b`, each followed
/// by the count of rows it changed, which is not zero.
pub open spec fn resolutions_applied(
    e: Seq<Event>,
    b: int,
    session: Seq<char>,
    resolutions: Seq<(String, ObjectiveStatus)>,
    now: Seq<char>,
    count: int,
) -> bool {
    &&& e.len() >= b + 2 * count
    &&& forall|i: int|
        #![trigger resolutions[i]]
        #![trigger resolution_unchanged(e, b, i)]
        0 <= i < count ==> resolved(e[b + 2 * i], resolutions[i], session, now) && changed_some(
            e[b + 2 * i + 1],
        ) && !resolution_unchanged(e, b, i)
}

/// The update of the `i`-th resolution changed no row.
pub open spec fn resolution_unchanged(e: Seq<Event>, b: int, i: int) -> bool {
    e.len() >= b + 2 * i + 2 && e[b + 2 * i + 1] == Event::Changed(0)
}

/// What was recorded of the resolutions stays as the trace grows.
pub proof fn lemma_applied_kept(
    after: Seq<Event>,
    before: Seq<Event>,
    b: int,
    session: Seq<char>,
    resolutions: Seq<(String, ObjectiveStatus)>,
    now: Seq<char>,
    count: int,
)
    requires
        extends(after, before),
        0 <= b,
        0 <= count,
        resolutions_applied(before, b, session, resolutions, now, count),
    ensures
        resolutions_applied(after, b, session, resolutions, now, count),
{
    assert forall|i: int| 0 <= i < count implies resolved(
        after[b + 2 * i],
        #[trigger] resolutions[i],
        session,
        now,
    ) && changed_some(after[b + 2 * i + 1]) && !resolution_unchanged(after, b, i) by {
        assert(resolved(before[b + 2 * i], resolutions[i], session, now));
        assert(changed_some(before[b + 2 * i + 1]));
        crate::sqlite::lemma_kept_at(after, before, b + 2 * i);
        crate::sqlite::lemma_kept_at(after, before, b + 2 * i + 1);
    }
}

pub open spec fn objective_missing_message() -> Seq<char> {
    "Objetivo do dia nao encontrado."@
}

pub open spec fn session_missing_message() -> Seq<char> {
    "Sessao do dia nao encontrada."@
}

/// What an ended day shows in the trace from position `b` on: each
/// resolution in order with the count of rows it changed, the reflection
/// when there is one, the closing of the session with the count of rows it
/// changed, and the commit.
pub open spec fn day_ended(
    e: Seq<Event>,
    b: int,
    session: Seq<char>,
    resolutions: Seq<(String, ObjectiveStatus)>,
    reflection: Option<NewDailyReflection>,
    now: Seq<char>,
) -> bool {
    let n = resolutions.len() as int;
    let m = if reflection is Some {
        1int
    } else {
        0int
    };
    &&& e.len() >= b + 2 * n + m + 3
    &&& resolutions_applied(e, b, session, resolutions, now, n)
    &&& reflection is Some ==> reflected(e[b + 2 * n], session, reflection->Some_0, now)
    &&& session_closed(e[b + 2 * n + m], session, now)
    &&& changed_some(e[b + 2 * n + m + 1])
    &&& e[b + 2 * n + m + 2] is Commit
}

/// `d` is the session a stored row holds.
pub open spec fn holds_session(row: Seq<Option<Seq<char>>>, d: DailySession) -> bool {
    &&& row.len() == 8
    &&& row[0] == Some(d.id@)
    &&& row[1] == Some(d.day@)
    &&& row[2] is Some && spec_session_status(row[2]->Some_0) == Some(d.status)
    &&& row[3] == Some(d.note@)
    &&& row[4] == Some(d.started_at@)
    &&& row[5] == crate::sqlite::optional_view(d.ended_at)
    &&& row[6] == Some(d.created_at@)
    &&& row[7] == Some(d.updated_at@)
}

/// A stored row that reads as a session.
pub open spec fn readable_session(row: Seq<Option<Seq<char>>>) -> bool {
    &&& row.len() == 8
    &&& row[0] is Some && row[1] is Some && row[3] is Some && row[4] is Some
    &&& row[6] is Some && row[7] is Some
    &&& row[2] is Some && spec_session_status(row[2]->Some_0) is Some
}

pub open spec fn unreadable_session_message() -> Seq<char> {
    "Sessao do dia ilegivel."@
}

fn required(cell: &Option<String>) -> (r: Result<String, CoreError>)
    ensures
        r is Ok <==> cell is Some,
        r is Ok ==> r->Ok_0@ == cell->Some_0@,
        r is Err ==> r->Err_0.code == ErrorCode::DataIntegrity && r->Err_0.message@
            == unreadable_session_message() && !r->Err_0.retryable,
{
    match cell {
        Some(text) => Ok(text.clone()),
        None => Err(CoreError::new(ErrorCode::DataIntegrity, "Sessao do dia ilegivel.", false)),
    }
}

/// The session a stored row holds (id, day, status, note, start, end,
/// creation, last change); a row that does not read as one is
/// `DataIntegrity`.
pub fn session_from_row(row: &Vec<Option<String>>) -> (r: Result<DailySession, CoreError>)
    requires
        row.len() == 8,
    ensures
        r is Ok <==> readable_session(row@.map_values(|c: Option<String>| crate::sqlite::optional_view(c))),
        r is Ok ==> holds_session(row@.map_values(|c: Option<String>| crate::sqlite::optional_view(c)), r->Ok_0),
        r is Err ==> r->Err_0.code == ErrorCode::DataIntegrity && r->Err_0.message@
            == unreadable_session_message() && !r->Err_0.retryable,
{
    let ghost cells = row@.map_values(|c: Option<String>| crate::sqlite::optional_view(c));
    assert(forall|i: int| 0 <= i < 8 ==> #[trigger] cells[i] == crate::sqlite::optional_view(row@[i]));
    let id = required(&row[0])?;
    let day = required(&row[1])?;
    let word = required(&row[2])?;
    let note = required(&row[3])?;
    let started_at = required(&row[4])?;
    let created_at = required(&row[6])?;
    let updated_at = required(&row[7])?;
    let status = match parse_session_status(word.as_str()) {
        Some(status) => status,
        None => {
            return Err(CoreError::new(ErrorCode::DataIntegrity, "Sessao do dia ilegivel.", false));
        },
    };
    let ended_at = match &row[5] {
        Some(text) => Some(text.clone()),
        None => None,
    };
    Ok(DailySession { id, day, status, note, started_at, ended_at, created_at, updated_at })
}

fn session_values(session: &NewDailySession, now: &str) -> (v: Vec<SqlValue>)
    ensures
        session_inserted(Event::Execute(INSERT_SESSION@, v@), *session, now@),
{
    let mut row = Vec::new();
    row.push(SqlValue::Text(session.id.clone()));
    row.push(SqlValue::Text(session.day.clone()));
    row.push(SqlValue::Text(session.note.clone()));
    row.push(SqlValue::Text(session.started_at.clone()));
    row.push(SqlValue::Text(String::from_str(now)));
    row
}

fn optional_text(value: &Option<String>) -> (v: SqlValue)
    ensures
        is_optional_text(v, *value),
{
    match value {
        Some(text) => SqlValue::Text(text.clone()),
        None => SqlValue::Null,
    }
}

fn objective_values(objective: &NewDailyObjective) -> (v: Vec<SqlValue>)
    ensures
        objective_inserted(Event::Execute(INSERT_OBJECTIVE@, v@), *objective),
{
    let mut row = Vec::new();
    row.push(SqlValue::Text(objective.id.clone()));
    row.push(SqlValue::Text(objective.session_id.clone()));
    row.push(SqlValue::Text(objective.title.clone()));
    row.push(SqlValue::Text(objective.description.clone()));
    row.push(optional_text(&objective.link_kind));
    row.push(optional_text(&objective.link_id));
    row.push(SqlValue::Text(objective.priority.clone()));
    row.push(SqlValue::Integer(objective.position));
    row.push(optional_text(&objective.carried_from));
    row.push(SqlValue::Text(objective.created_at.clone()));
    row
}

/// The longest chain of carried objectives that is followed.
pub const CARRY_LIMIT: usize = 365;

impl SqliteStorage {
    /// Starts a day in one transaction: refuses a day that already has a
    /// session (`InvalidInput`, nothing written), closes at `now` every
    /// session still active from an earlier day (their pending objectives
    /// stay pending, so they can be carried), creates the session as active,
    /// and stores each objective as pending. On success the trace shows
    /// exactly those steps and the commit, and the session returned is the
    /// one created; on failure nothing was committed.
    pub fn start_day(
        &self,
        session: &NewDailySession,
        objectives: &Vec<NewDailyObjective>,
        now: &str,
        trace: &mut Trace,
    ) -> (r: Result<DailySession, CoreError>)
        ensures
            outcome_well_formed(r),
            extends(final(trace).events@, old(trace).events@),
            r is Ok ==> day_started(
                final(trace).events@,
                old(trace).events@.len() as int,
                *session,
                objectives@,
                now@,
            ) && is_started(r->Ok_0, *session, now@),
            ({
                let e = final(trace).events@;
                let b = old(trace).events@.len() as int;
                &&& e.len() > b
                &&& e[b] matches Event::ReadInteger(q, v, count) && q == DAY_TAKEN@ && count > 0
            }) ==> r is Err && r->Err_0.code == ErrorCode::InvalidInput && r->Err_0.message@
                == day_taken_message() && final(trace).events@.len() == old(trace).events@.len() + 1,
            r is Err ==> commits(final(trace).events@) == commits(old(trace).events@),
    {
        let ghost base = trace.events@;
        proof {
            lemma_extends_refl(base);
        }
        let transaction = sql(sqlite::begin(self.connection()))?;
        let inside = sqlite::in_transaction(&transaction);
        let mut key = Vec::new();
        key.push(SqlValue::Text(session.day.clone()));
        let taken = sqlite::query_integer_with_traced(inside, DAY_TAKEN, &key, trace);
        proof {
            if taken is Ok {
                lemma_step(base, base, Event::ReadInteger(DAY_TAKEN@, key@, taken->Ok_0));
            }
        }
        let taken = sql(taken)?;
        if taken > 0 {
            return Err(CoreError::new(ErrorCode::InvalidInput, "Este dia ja foi iniciado.", false));
        }
        let ghost t1 = trace.events@;
        let mut stale = Vec::new();
        stale.push(SqlValue::Text(session.day.clone()));
        stale.push(SqlValue::Text(String::from_str(now)));
        let closed = run(inside, CLOSE_STALE_SESSIONS, &stale, trace);
        proof {
            lemma_step(base, t1, Event::Execute(CLOSE_STALE_SESSIONS@, stale@));
        }
        closed?;
        let ghost t2 = trace.events@;
        let row = session_values(session, now);
        let inserted = run(inside, INSERT_SESSION, &row, trace);
        proof {
            lemma_step(base, t2, Event::Execute(INSERT_SESSION@, row@));
        }
        inserted?;
        let ghost t3 = trace.events@;
        let ghost first = Event::ReadInteger(DAY_TAKEN@, key@, taken);
        proof {
            lemma_extends_refl(t3);
            assert(t3[base.len() as int] == first);
        }
        let mut i: usize = 0;
        while i < objectives.len()
            invariant
                0 <= i <= objectives.len(),
                base == old(trace).events@,
                taken <= 0,
                first == Event::ReadInteger(DAY_TAKEN@, key@, taken),
                trace.events@.len() > base.len(),
                trace.events@[base.len() as int] == first,
                extends(trace.events@, t3),
                extends(trace.events@, base),
                extends(t3, base),
                trace.events@.len() == t3.len() + i,
                commits(trace.events@) == commits(base),
                forall|j: int|
                    0 <= j < i ==> objective_inserted(
                        trace.events@[t3.len() + j],
                        #[trigger] objectives@[j],
                    ),
            decreases objectives.len() - i,
        {
            let ghost before = trace.events@;
            let values = objective_values(&objectives[i]);
            let done = run(inside, INSERT_OBJECTIVE, &values, trace);
            proof {
                lemma_step(t3, before, Event::Execute(INSERT_OBJECTIVE@, values@));
                lemma_step(base, before, Event::Execute(INSERT_OBJECTIVE@, values@));
                assert(trace.events@[base.len() as int] == before[base.len() as int]);
            }
            done?;
            i = i + 1;
        }
        let ghost t4 = trace.events@;
        let committed = finish(transaction, trace);
        proof {
            if committed is Ok {
                lemma_push(t4, Event::Commit);
                lemma_extends_trans(trace.events@, t4, base);
            }
        }
        committed?;
        proof {
            let e = trace.events@;
            let b = base.len() as int;
            assert(t3 =~= base.push(Event::ReadInteger(DAY_TAKEN@, key@, taken)).push(
                Event::Execute(CLOSE_STALE_SESSIONS@, stale@),
            ).push(Event::Execute(INSERT_SESSION@, row@)));
            crate::sqlite::lemma_kept_at(t4, t3, b);
            crate::sqlite::lemma_kept_at(t4, t3, b + 1);
            crate::sqlite::lemma_kept_at(t4, t3, b + 2);
            assert forall|j: int| 0 <= j < objectives@.len() implies objective_inserted(
                e[b + 3 + j],
                #[trigger] objectives@[j],
            ) by {
                assert(e[b + 3 + j] == t4[t3.len() + j]);
            }
        }
        Ok(
            DailySession {
                id: session.id.clone(),
                day: session.day.clone(),
                status: SessionStatus::Active,
                note: session.note.clone(),
                started_at: session.started_at.clone(),
                ended_at: None,
                created_at: String::from_str(now),
                updated_at: String::from_str(now),
            },
        )
    }

    /// Ends a day in one transaction: sets each listed objective of the
    /// session to its status (a completed one gets `now` as its completion
    /// time), writes the reflection when there is one, and closes the session
    /// at `now`. After each update the trace shows the count of rows it
    /// changed; when an objective's update changed none (it is not in the
    /// session) the call is `NotFound` and stops there, and so it is when the
    /// closing changed none (the session is not there). On success the trace
    /// shows exactly those steps, the commit, and the read of the closed
    /// session, which is what is returned; when nothing was committed, the
    /// failure came before the commit.
    pub fn end_day(
        &self,
        session_id: &str,
        resolutions: &Vec<(String, ObjectiveStatus)>,
        reflection: &Option<NewDailyReflection>,
        now: &str,
        trace: &mut Trace,
    ) -> (r: Result<DailySession, CoreError>)
        ensures
            outcome_well_formed(r),
            extends(final(trace).events@, old(trace).events@),
            r is Ok ==> {
                let e = final(trace).events@;
                let b = old(trace).events@.len() as int;
                let k = b + 2 * resolutions@.len() + (if *reflection is Some {
                    1int
                } else {
                    0int
                }) + 3;
                &&& day_ended(e, b, session_id@, resolutions@, *reflection, now@)
                &&& e.len() == k + 1
                &&& e[k] matches Event::ReadRow(q, v, Some(row)) && q == SESSION_BY_ID@ && keyed(v, session_id@)
                    && holds_session(row, r->Ok_0)
            },
            ({
                let e = final(trace).events@;
                let b = old(trace).events@.len() as int;
                forall|i: int|
                    0 <= i < resolutions@.len() && #[trigger] resolution_unchanged(e, b, i) ==> {
                        &&& r is Err && r->Err_0.code == ErrorCode::NotFound
                        &&& r->Err_0.message@ == objective_missing_message()
                        &&& e.len() == b + 2 * i + 2
                        &&& resolutions_applied(e, b, session_id@, resolutions@, now@, i)
                        &&& resolved(e[b + 2 * i], resolutions@[i], session_id@, now@)
                        &&& commits(e) == commits(old(trace).events@)
                    }
            }),
            ({
                let e = final(trace).events@;
                let b = old(trace).events@.len() as int;
                let c = b + 2 * resolutions@.len() + (if *reflection is Some {
                    1int
                } else {
                    0int
                }) + 1;
                e.len() > c && e[c] == Event::Changed(0)
            }) ==> {
                let e = final(trace).events@;
                let b = old(trace).events@.len() as int;
                let n = resolutions@.len() as int;
                let m = if *reflection is Some {
                    1int
                } else {
                    0int
                };
                &&& r is Err && r->Err_0.code == ErrorCode::NotFound
                &&& r->Err_0.message@ == session_missing_message()
                &&& e.len() == b + 2 * n + m + 2
                &&& resolutions_applied(e, b, session_id@, resolutions@, now@, n)
                &&& session_closed(e[b + 2 * n + m], session_id@, now@)
                &&& commits(e) == commits(old(trace).events@)
            },
            ({
                let e = final(trace).events@;
                let k = old(trace).events@.len() + 2 * resolutions@.len() + (if *reflection is Some {
                    1int
                } else {
                    0int
                }) + 3;
                &&& e.len() == k + 1
                &&& e[k] matches Event::ReadRow(q, v, None)
            }) ==> r is Err && r->Err_0.code == ErrorCode::NotFound && r->Err_0.message@
                == session_missing_message(),
            ({
                let e = final(trace).events@;
                let k = old(trace).events@.len() + 2 * resolutions@.len() + (if *reflection is Some {
                    1int
                } else {
                    0int
                }) + 3;
                &&& e.len() == k + 1
                &&& e[k] matches Event::ReadRow(q, v, Some(row)) && !readable_session(row)
            }) ==> r is Err && r->Err_0.code == ErrorCode::DataIntegrity && r->Err_0.message@
                == unreadable_session_message(),
            r is Err ==> commits(final(trace).events@) == commits(old(trace).events@) || day_ended(
                final(trace).events@,
                old(trace).events@.len() as int,
                session_id@,
                resolutions@,
                *reflection,
                now@,
            ),
    {
        let ghost base = trace.events@;
        let ghost b = base.len() as int;
        let ghost n = resolutions@.len() as int;
        proof {
            lemma_extends_refl(base);
        }
        let transaction = sql(sqlite::begin(self.connection()))?;
        let inside = sqlite::in_transaction(&transaction);
        let mut i: usize = 0;
        while i < resolutions.len()
            invariant
                0 <= i <= resolutions.len(),
                base == old(trace).events@,
                b == base.len(),
                n == resolutions@.len(),
                extends(trace.events@, base),
                trace.events@.len() == b + 2 * i,
                commits(trace.events@) == commits(base),
                resolutions_applied(trace.events@, b, session_id@, resolutions@, now@, i as int),
            decreases resolutions.len() - i,
        {
            let ghost before = trace.events@;
            let status = resolutions[i].1;
            let mut values = Vec::new();
            values.push(SqlValue::Text(resolutions[i].0.clone()));
            values.push(SqlValue::Text(String::from_str(session_id)));
            values.push(SqlValue::Text(String::from_str(status.as_str())));
            if status == ObjectiveStatus::Completed {
                values.push(SqlValue::Text(String::from_str(now)));
            } else {
                values.push(SqlValue::Null);
            }
            values.push(SqlValue::Text(String::from_str(now)));
            let ran = run(inside, RESOLVE_OBJECTIVE, &values, trace);
            let ghost e0 = Event::Execute(RESOLVE_OBJECTIVE@, values@);
            proof {
                lemma_step(base, before, e0);
                lemma_push(before, e0);
                lemma_applied_kept(trace.events@, before, b, session_id@, resolutions@, now@, i as int);
                assert(resolved(e0, resolutions@[i as int], session_id@, now@));
            }
            ran?;
            let ghost t0 = trace.events@;
            let changed = sqlite::changes_traced(inside, trace);
            proof {
                lemma_step(base, t0, Event::Changed(changed));
                lemma_push(t0, Event::Changed(changed));
                lemma_applied_kept(trace.events@, t0, b, session_id@, resolutions@, now@, i as int);
                assert(trace.events@[b + 2 * i] == e0);
                assert(trace.events@[b + 2 * i + 1] == Event::Changed(changed));
            }
            if changed == 0 {
                return Err(crate::error::not_found("Objetivo do dia nao encontrado."));
            }
            proof {
                let t = trace.events@;
                assert forall|j: int| 0 <= j < i + 1 implies resolved(
                    t[b + 2 * j],
                    #[trigger] resolutions@[j],
                    session_id@,
                    now@,
                ) && changed_some(t[b + 2 * j + 1]) && !resolution_unchanged(t, b, j) by {
                    if j < i {
                        assert(resolutions_applied(t, b, session_id@, resolutions@, now@, i as int));
                    }
                }
            }
            i = i + 1;
        }
        let ghost t1 = trace.events@;
        match reflection {
            Some(written) => {
                let mut values = Vec::new();
                values.push(SqlValue::Text(String::from_str(session_id)));
                values.push(optional_text(&written.mood));
                values.push(SqlValue::Text(written.summary.clone()));
                values.push(SqlValue::Text(String::from_str(now)));
                let done = run(inside, UPSERT_REFLECTION, &values, trace);
                proof {
                    lemma_step(base, t1, Event::Execute(UPSERT_REFLECTION@, values@));
                    lemma_push(t1, Event::Execute(UPSERT_REFLECTION@, values@));
                    lemma_applied_kept(trace.events@, t1, b, session_id@, resolutions@, now@, n);
                }
                done?;
            },
            None => {
                proof {
                    lemma_extends_refl(t1);
                }
            },
        }
        let ghost t2 = trace.events@;
        let ghost m = if *reflection is Some {
            1int
        } else {
            0int
        };
        proof {
            assert(t2.len() == b + 2 * n + m);
            lemma_applied_kept(t2, t1, b, session_id@, resolutions@, now@, n);
        }
        let mut values = Vec::new();
        values.push(SqlValue::Text(String::from_str(session_id)));
        values.push(SqlValue::Text(String::from_str(now)));
        let closing = run(inside, CLOSE_SESSION, &values, trace);
        let ghost e2 = Event::Execute(CLOSE_SESSION@, values@);
        proof {
            lemma_step(base, t2, e2);
            lemma_push(t2, e2);
            lemma_applied_kept(trace.events@, t2, b, session_id@, resolutions@, now@, n);
        }
        closing?;
        let ghost t2c = trace.events@;
        let closed = sqlite::changes_traced(inside, trace);
        proof {
            lemma_step(base, t2c, Event::Changed(closed));
            lemma_push(t2c, Event::Changed(closed));
            lemma_applied_kept(trace.events@, t2c, b, session_id@, resolutions@, now@, n);
            assert(trace.events@[b + 2 * n + m] == e2);
            assert(trace.events@[b + 2 * n + m + 1] == Event::Changed(closed));
        }
        if closed == 0 {
            return Err(crate::error::not_found("Sessao do dia nao encontrada."));
        }
        let ghost t3 = trace.events@;
        let committed = finish(transaction, trace);
        proof {
            if committed is Ok {
                lemma_push(t3, Event::Commit);
                lemma_extends_trans(trace.events@, t3, base);
            }
        }
        committed?;
        let ghost t4 = trace.events@;
        proof {
            lemma_applied_kept(t4, t3, b, session_id@, resolutions@, now@, n);
            lemma_extends_trans(t4, t3, t2c);
            if *reflection is Some {
                crate::sqlite::lemma_kept_at(t4, t2c, b + 2 * n);
                crate::sqlite::lemma_kept_at(t2c, t2, b + 2 * n);
            }
            assert(t4[b + 2 * n + m] == e2);
            assert(t4[b + 2 * n + m + 1] == Event::Changed(closed));
            assert(day_ended(t4, b, session_id@, resolutions@, *reflection, now@));
        }
        let mut key = Vec::new();
        key.push(SqlValue::Text(String::from_str(session_id)));
        let read = sqlite::query_row_texts_traced(self.connection(), SESSION_BY_ID, &key, 8, trace);
        proof {
            if read is Ok {
                lemma_push(t4, Event::ReadRow(SESSION_BY_ID@, key@, crate::sqlite::row_view(read->Ok_0)));
                lemma_extends_trans(trace.events@, t4, base);
                lemma_applied_kept(trace.events@, t4, b, session_id@, resolutions@, now@, n);
                if *reflection is Some {
                    crate::sqlite::lemma_kept_at(trace.events@, t4, b + 2 * n);
                }
                crate::sqlite::lemma_kept_at(trace.events@, t4, b + 2 * n + m);
                crate::sqlite::lemma_kept_at(trace.events@, t4, b + 2 * n + m + 1);
                crate::sqlite::lemma_kept_at(trace.events@, t4, b + 2 * n + m + 2);
                assert(day_ended(trace.events@, b, session_id@, resolutions@, *reflection, now@));
            }
        }
        let read = sql(read)?;
        match read {
            Some(row) => session_from_row(&row),
            None => Err(crate::error::not_found("Sessao do dia nao encontrada.")),
        }
    }

    /// A session by its id: a session that is not there is `NotFound`. On
    /// success the trace shows the one read, and the session is what the row
    /// read holds.
    pub fn session(&self, id: &str, trace: &mut Trace) -> (r: Result<DailySession, CoreError>)
        ensures
            outcome_well_formed(r),
            final(trace).events@.len() <= old(trace).events@.len() + 1,
            extends(final(trace).events@, old(trace).events@),
            r is Ok ==> final(trace).events@.len() == old(trace).events@.len() + 1 && session_read(
                final(trace).events@.last(),
                id@,
                r->Ok_0,
            ),
            ({
                let e = final(trace).events@;
                &&& e.len() == old(trace).events@.len() + 1
                &&& e.last() matches Event::ReadRow(q, v, None) && q == SESSION_BY_ID@
            }) ==> r is Err && r->Err_0.code == ErrorCode::NotFound,
    {
        let ghost base = trace.events@;
        proof {
            lemma_extends_refl(base);
        }
        let mut key = Vec::new();
        key.push(SqlValue::Text(String::from_str(id)));
        let read = sqlite::query_row_texts_traced(self.connection(), SESSION_BY_ID, &key, 8, trace);
        proof {
            if read is Ok {
                lemma_push(base, Event::ReadRow(SESSION_BY_ID@, key@, crate::sqlite::row_view(read->Ok_0)));
            }
        }
        let read = sql(read)?;
        match read {
            Some(row) => session_from_row(&row),
            None => Err(crate::error::not_found("Sessao do dia nao encontrada.")),
        }
    }

    /// Reopens a day that was closed, in one transaction: refuses while
    /// another day is open (`InvalidInput`, nothing written), reopens the
    /// session at `now` and returns it as read back. After the reopening the
    /// trace shows the count of rows it changed; when it changed none (the
    /// session is not there) the call is `NotFound` and stops there. On
    /// success the trace shows the check, the reopening, its count, the
    /// commit and the read; when something was committed, it was exactly the
    /// reopening.
    pub fn reopen_day(&self, session_id: &str, now: &str, trace: &mut Trace) -> (r: Result<DailySession, CoreError>)
        ensures
            outcome_well_formed(r),
            extends(final(trace).events@, old(trace).events@),
            r is Ok ==> {
                let e = final(trace).events@;
                let b = old(trace).events@.len() as int;
                &&& e.len() == b + 5
                &&& e[b] matches Event::ReadInteger(q, v, open) && q == OTHER_OPEN_DAYS@ && keyed(v, session_id@)
                    && open <= 0
                &&& session_reopened(e[b + 1], session_id@, now@)
                &&& changed_some(e[b + 2])
                &&& e[b + 3] is Commit
                &&& session_read(e[b + 4], session_id@, r->Ok_0)
            },
            ({
                let e = final(trace).events@;
                let b = old(trace).events@.len() as int;
                &&& e.len() > b
                &&& e[b] matches Event::ReadInteger(q, v, open) && q == OTHER_OPEN_DAYS@ && open > 0
            }) ==> r is Err && r->Err_0.code == ErrorCode::InvalidInput && r->Err_0.message@
                == other_day_open_message() && final(trace).events@.len() == old(trace).events@.len() + 1,
            ({
                let e = final(trace).events@;
                let b = old(trace).events@.len() as int;
                e.len() > b + 2 && e[b + 2] == Event::Changed(0)
            }) ==> {
                let e = final(trace).events@;
                let b = old(trace).events@.len() as int;
                &&& r is Err && r->Err_0.code == ErrorCode::NotFound
                &&& r->Err_0.message@ == session_missing_message()
                &&& e.len() == b + 3
                &&& session_reopened(e[b + 1], session_id@, now@)
                &&& commits(e) == commits(old(trace).events@)
            },
            ({
                let e = final(trace).events@;
                let b = old(trace).events@.len() as int;
                &&& e.len() == b + 5
                &&& e[b + 4] matches Event::ReadRow(q, v, None) && q == SESSION_BY_ID@
            }) ==> r is Err && r->Err_0.code == ErrorCode::NotFound,
            r is Err && commits(final(trace).events@) != commits(old(trace).events@) ==> {
                let e = final(trace).events@;
                let b = old(trace).events@.len() as int;
                &&& e.len() >= b + 4
                &&& session_reopened(e[b + 1], session_id@, now@)
                &&& changed_some(e[b + 2])
                &&& e[b + 3] is Commit
            },
    {
        let ghost base = trace.events@;
        let ghost b = base.len() as int;
        proof {
            lemma_extends_refl(base);
        }
        let transaction = sql(sqlite::begin(self.connection()))?;
        let inside = sqlite::in_transaction(&transaction);
        let mut key = Vec::new();
        key.push(SqlValue::Text(String::from_str(session_id)));
        let read = sqlite::query_integer_with_traced(inside, OTHER_OPEN_DAYS, &key, trace);
        proof {
            if read is Ok {
                lemma_step(base, base, Event::ReadInteger(OTHER_OPEN_DAYS@, key@, read->Ok_0));
            }
        }
        let open = sql(read)?;
        if open > 0 {
            return Err(
                CoreError::new(
                    ErrorCode::InvalidInput,
                    "Ja existe um dia aberto. Encerre ele antes de reabrir outro.",
                    false,
                ),
            );
        }
        let ghost t1 = trace.events@;
        let mut values = Vec::new();
        values.push(SqlValue::Text(String::from_str(session_id)));
        values.push(SqlValue::Text(String::from_str(now)));
        let reopening = run(inside, REOPEN_SESSION, &values, trace);
        let ghost e1 = Event::Execute(REOPEN_SESSION@, values@);
        proof {
            lemma_step(base, t1, e1);
            lemma_push(t1, e1);
        }
        reopening?;
        let ghost t1c = trace.events@;
        let changed = sqlite::changes_traced(inside, trace);
        proof {
            lemma_step(base, t1c, Event::Changed(changed));
            lemma_push(t1c, Event::Changed(changed));
            lemma_extends_trans(trace.events@, t1c, t1);
            crate::sqlite::lemma_kept_at(trace.events@, t1, b);
            assert(trace.events@[b + 1] == e1);
        }
        if changed == 0 {
            return Err(crate::error::not_found("Sessao do dia nao encontrada."));
        }
        let ghost t2 = trace.events@;
        let committed = finish(transaction, trace);
        proof {
            if committed is Ok {
                lemma_push(t2, Event::Commit);
                lemma_extends_trans(trace.events@, t2, base);
            }
        }
        committed?;
        let ghost t3 = trace.events@;
        let reread = self.session(session_id, trace);
        proof {
            lemma_extends_trans(trace.events@, t3, base);
            lemma_extends_trans(t3, t2, t1);
            lemma_extends_trans(trace.events@, t3, t1);
            crate::sqlite::lemma_kept_at(trace.events@, t1, b);
            assert(t1[b] == Event::ReadInteger(OTHER_OPEN_DAYS@, key@, open));
            assert(trace.events@[b] == t3[b]);
            assert(trace.events@[b + 1] == t3[b + 1]);
            assert(trace.events@[b + 2] == t3[b + 2]);
            assert(trace.events@[b + 3] == t3[b + 3]);
            if trace.events@.len() > t3.len() {
                assert(trace.events@.drop_last() =~= t3) by {
                    assert(trace.events@.subrange(0, t3.len() as int) == t3);
                }
                crate::sqlite::lemma_push(t3, trace.events@.last());
                assert(trace.events@ =~= t3.push(trace.events@.last()));
            }
        }
        reread
    }

    /// Removes an objective from its day, in one transaction. After the
    /// deletion the trace shows the count of rows it removed; when it removed
    /// none (the objective is not there) the call is `NotFound` and stops
    /// there. On success the trace shows the deletion keyed by the
    /// objective, its count and the commit; on failure nothing was committed.
    pub fn remove_objective(&self, id: &str, trace: &mut Trace) -> (r: Result<(), CoreError>)
        ensures
            outcome_well_formed(r),
            extends(final(trace).events@, old(trace).events@),
            r is Ok ==> {
                let e = final(trace).events@;
                let b = old(trace).events@.len() as int;
                &&& e.len() == b + 3
                &&& e[b] matches Event::Execute(q, v) && q == DELETE_OBJECTIVE@ && keyed(v, id@)
                &&& changed_some(e[b + 1])
                &&& e[b + 2] is Commit
            },
            ({
                let e = final(trace).events@;
                let b = old(trace).events@.len() as int;
                e.len() > b + 1 && e[b + 1] == Event::Changed(0)
            }) ==> r is Err && r->Err_0.code == ErrorCode::NotFound && r->Err_0.message@
                == objective_missing_message() && final(trace).events@.len() == old(trace).events@.len() + 2,
            r is Err ==> commits(final(trace).events@) == commits(old(trace).events@),
    {
        let ghost base = trace.events@;
        proof {
            lemma_extends_refl(base);
        }
        let transaction = sql(sqlite::begin(self.connection()))?;
        let inside = sqlite::in_transaction(&transaction);
        let mut key = Vec::new();
        key.push(SqlValue::Text(String::from_str(id)));
        let removing = run(inside, DELETE_OBJECTIVE, &key, trace);
        let ghost e0 = Event::Execute(DELETE_OBJECTIVE@, key@);
        proof {
            lemma_step(base, base, e0);
        }
        removing?;
        let ghost t0 = trace.events@;
        let removed = sqlite::changes_traced(inside, trace);
        proof {
            lemma_step(base, t0, Event::Changed(removed));
        }
        if removed == 0 {
            return Err(crate::error::not_found("Objetivo do dia nao encontrado."));
        }
        let ghost t1 = trace.events@;
        let committed = finish(transaction, trace);
        proof {
            if committed is Ok {
                lemma_push(t1, Event::Commit);
                lemma_extends_trans(trace.events@, t1, base);
                assert(trace.events@ =~= base.push(e0).push(Event::Changed(removed)).push(Event::Commit));
            }
        }
        committed?;
        Ok(())
    }

    /// How many days an objective has been carried: the links followed
    /// through `carried_from`, stopping at the first objective that was not
    /// carried (or that cannot be read) and never after 365 links, so that a
    /// cycle in the chain cannot loop forever. The trace shows the chain:
    /// one read per link followed, each keyed by the objective the previous
    /// one answered, and, when the chain ended before the limit, the read
    /// that answered no link (or none, when that read failed).
    pub fn carry_depth(&self, id: &str, trace: &mut Trace) -> (r: Result<usize, CoreError>)
        ensures
            r is Ok,
            r->Ok_0 <= CARRY_LIMIT,
            ({
                let e = final(trace).events@;
                let b = old(trace).events@.len() as int;
                let n = r->Ok_0 as int;
                &&& extends(e, old(trace).events@)
                &&& e.len() == b + n || (n < CARRY_LIMIT && e.len() == b + n + 1)
                &&& forall|j: int| 0 <= j < n ==> #[trigger] chain_read(e, b, id@, j, true)
                &&& e.len() == b + n + 1 ==> chain_read(e, b, id@, n, false)
            }),
    {
        let ghost base = trace.events@;
        let ghost b = base.len() as int;
        proof {
            lemma_extends_refl(base);
        }
        let mut atual = String::from_str(id);
        let mut elos: usize = 0;
        let mut done = false;
        while elos < CARRY_LIMIT && !done
            invariant
                elos <= CARRY_LIMIT,
                b == base.len(),
                base == old(trace).events@,
                extends(trace.events@, base),
                !done ==> trace.events@.len() == b + elos,
                done ==> trace.events@.len() == b + elos || trace.events@.len() == b + elos + 1,
                done ==> elos < CARRY_LIMIT,
                !done ==> atual@ == link_at(trace.events@, b, id@, elos as int),
                forall|j: int| 0 <= j < elos ==> #[trigger] chain_read(trace.events@, b, id@, j, true),
                done && trace.events@.len() == b + elos + 1 ==> chain_read(trace.events@, b, id@, elos as int, false),
            decreases CARRY_LIMIT - elos + (if done { 0int } else { 1int }),
        {
            let mut values = Vec::new();
            values.push(SqlValue::Text(atual.clone()));
            let ghost before = trace.events@;
            let anterior = sqlite::query_optional_text_with(self.connection(), CARRIED_FROM, &values, trace);
            proof {
                if anterior is Ok {
                    lemma_push(before, trace.events@.last());
                    lemma_extends_trans(trace.events@, before, base);
                    assert forall|j: int| 0 <= j < elos implies #[trigger] chain_read(trace.events@, b, id@, j, true) by {
                        assert(chain_read(before, b, id@, j, true));
                        assert(trace.events@[b + j] == before[b + j]);
                        if j > 0 {
                            assert(trace.events@[b + j - 1] == before[b + j - 1]);
                        }
                        assert(link_at(trace.events@, b, id@, j) == link_at(before, b, id@, j));
                    }
                    if elos > 0 {
                        assert(trace.events@[b + elos - 1] == before[b + elos - 1]);
                    }
                    assert(link_at(trace.events@, b, id@, elos as int) == link_at(before, b, id@, elos as int));
                }
            }
            match anterior {
                Ok(Some(previous)) => {
                    proof {
                        assert(chain_read(trace.events@, b, id@, elos as int, true));
                        assert(link_at(trace.events@, b, id@, elos + 1) == previous@);
                    }
                    elos = elos + 1;
                    atual = previous;
                },
                Ok(None) => {
                    done = true;
                },
                Err(_) => {
                    done = true;
                },
            }
        }
        Ok(elos)
    }
}

} // verus!
