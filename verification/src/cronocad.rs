//! The one-time import of a CronoCAD database.
//!
//! The source is opened read-only; what the import brings is counted in an
//! `ImportReport`, and a second import is refused once the first was marked.

use vstd::prelude::*;
use crate::clock;
use crate::error::{CoreError, ErrorCode};
use crate::sqlite::{
    self, extends, gained, inserted_as, lemma_extends_refl, lemma_extends_trans, lemma_push, optional_view, Event,
    SqlValue, Trace,
};
use crate::storage::{outcome_well_formed, run, sql, SqliteStorage};
use crate::text;

verus! {

/// What the import brought, for the person to compare with CronoCAD before
/// uninstalling it.
#[derive(Clone, Copy, Debug, PartialEq, Eq, Structural)]
pub struct ImportReport {
    pub projects: usize,
    pub entries: usize,
    pub tasks: usize,
    /// Raw seconds, summed as the source held them.
    pub tracked_seconds: i64,
    pub monitored_apps: usize,
    /// The history the system observed.
    pub activity_events: usize,
    pub clients: usize,
}

impl Default for ImportReport {
    fn default() -> (r: ImportReport)
        ensures
            r.projects == 0 && r.entries == 0 && r.tasks == 0 && r.tracked_seconds == 0
                && r.monitored_apps == 0 && r.activity_events == 0 && r.clients == 0,
    {
        ImportReport {
            projects: 0,
            entries: 0,
            tasks: 0,
            tracked_seconds: 0,
            monitored_apps: 0,
            activity_events: 0,
            clients: 0,
        }
    }
}

// ---------------------------------------------------------------------------
// Project status
// ---------------------------------------------------------------------------

/// Whether a project is on the active surfaces.
#[derive(Clone, Copy, Debug, PartialEq, Eq, Structural)]
pub enum LifecycleState {
    Active,
    Archived,
}

/// The status CronoCAD kept for a project, preserved as it was.
#[derive(Clone, Copy, Debug, PartialEq, Eq, Structural)]
pub enum TrackingStatus {
    Active,
    Paused,
    Completed,
    Archived,
}

pub open spec fn spec_map_status(raw: Seq<char>) -> (LifecycleState, TrackingStatus) {
    if raw == "completed"@ {
        (LifecycleState::Archived, TrackingStatus::Completed)
    } else if raw == "archived"@ {
        (LifecycleState::Archived, TrackingStatus::Archived)
    } else if raw == "paused"@ {
        (LifecycleState::Active, TrackingStatus::Paused)
    } else {
        (LifecycleState::Active, TrackingStatus::Active)
    }
}

/// Translates a CronoCAD project status into the two axes of the product:
/// `completed` and `archived` both leave the active surfaces, and the
/// tracking status keeps which of the two it was.
pub fn map_status(raw: &str) -> (r: (LifecycleState, TrackingStatus))
    ensures
        r == spec_map_status(raw@),
{
    if text::same_text(raw, "completed") {
        (LifecycleState::Archived, TrackingStatus::Completed)
    } else if text::same_text(raw, "archived") {
        (LifecycleState::Archived, TrackingStatus::Archived)
    } else if text::same_text(raw, "paused") {
        (LifecycleState::Active, TrackingStatus::Paused)
    } else {
        (LifecycleState::Active, TrackingStatus::Active)
    }
}

/// A delivered project and an abandoned one leave the active surfaces alike
/// and stay distinguishable by their tracking status; paused and unknown
/// projects stay active.
pub proof fn law_finished_projects_stay_distinguishable()
    ensures
        spec_map_status("completed"@).0 == spec_map_status("archived"@).0,
        spec_map_status("completed"@).0 == LifecycleState::Archived,
        spec_map_status("completed"@).1 != spec_map_status("archived"@).1,
        spec_map_status("paused"@).0 == LifecycleState::Active,
        forall|raw: Seq<char>|
            spec_map_status(raw).0 == LifecycleState::Archived <==> (raw == "completed"@ || raw
                == "archived"@),
{
    reveal_strlit("completed");
    reveal_strlit("archived");
    reveal_strlit("paused");
    assert("completed"@[0] != "archived"@[0]);
    assert("paused"@[0] != "archived"@[0]);
    assert("paused"@[0] != "completed"@[0]);
}

// ---------------------------------------------------------------------------
// Descriptions, seconds, the import mark
// ---------------------------------------------------------------------------

pub open spec fn or_empty(value: Option<String>) -> Seq<char> {
    match value {
        Some(s) => s@,
        None => Seq::empty(),
    }
}

/// The parts of a project description that hold more than white space.
pub open spec fn description_parts(description: Seq<char>, notes: Seq<char>) -> Seq<Seq<char>> {
    let first: Seq<Seq<char>> = if text::spec_is_blank(description) {
        seq![]
    } else {
        seq![description]
    };
    if text::spec_is_blank(notes) {
        first
    } else {
        first.push(notes)
    }
}

/// The description a CronoCAD project becomes: its description and its free
/// notes, the blank ones left out, separated by an empty line.
pub open spec fn spec_project_description(description: Seq<char>, notes: Seq<char>) -> Seq<char> {
    text::spec_join(description_parts(description, notes), "\n\n"@)
}

/// Builds the description of an imported project, so the notes the person
/// wrote by hand are not lost.
pub fn project_description(description: Option<String>, notes: Option<String>) -> (s: String)
    ensures
        s@ == spec_project_description(or_empty(description), or_empty(notes)),
{
    let description = match description {
        Some(d) => d,
        None => String::new(),
    };
    let notes = match notes {
        Some(n) => n,
        None => String::new(),
    };
    let mut parts: Vec<String> = Vec::new();
    if !text::is_blank(description.as_str()) {
        parts.push(description);
    }
    if !text::is_blank(notes.as_str()) {
        parts.push(notes);
    }
    let ghost expected = description_parts(description@, notes@);
    assert(text::string_views(parts@) =~= expected);
    text::join(&parts, "\n\n")
}

/// The sum of the sessions' durations, a negative duration counting as zero.
pub open spec fn spec_tracked_seconds(durations: Seq<i64>) -> int
    decreases durations.len(),
{
    if durations.len() == 0 {
        0
    } else {
        spec_tracked_seconds(durations.drop_last()) + (if durations.last() > 0 {
            durations.last() as int
        } else {
            0
        })
    }
}

proof fn lemma_tracked_seconds_grows(durations: Seq<i64>, i: int)
    requires
        0 <= i <= durations.len(),
    ensures
        0 <= spec_tracked_seconds(durations.take(i)) <= spec_tracked_seconds(durations),
    decreases durations.len() - i,
{
    if i < durations.len() {
        lemma_tracked_seconds_grows(durations, i + 1);
        assert(durations.take(i + 1).drop_last() =~= durations.take(i));
        lemma_tracked_seconds_nonnegative(durations.take(i));
    } else {
        assert(durations.take(i) =~= durations);
        lemma_tracked_seconds_nonnegative(durations);
    }
}

proof fn lemma_tracked_seconds_nonnegative(durations: Seq<i64>)
    ensures
        spec_tracked_seconds(durations) >= 0,
    decreases durations.len(),
{
    if durations.len() > 0 {
        lemma_tracked_seconds_nonnegative(durations.drop_last());
    }
}

/// Tracked seconds add up: the total of two lists of sessions is the sum of
/// their totals, a session counts its whole duration, one with a negative
/// duration counts nothing, and no session counts nothing.
pub proof fn law_tracked_seconds_add_up(first: Seq<i64>, second: Seq<i64>, duration: i64)
    ensures
        spec_tracked_seconds(first + second) == spec_tracked_seconds(first) + spec_tracked_seconds(second),
        duration >= 0 ==> spec_tracked_seconds(seq![duration]) == duration,
        duration < 0 ==> spec_tracked_seconds(seq![duration]) == 0,
        spec_tracked_seconds(Seq::<i64>::empty()) == 0,
    decreases second.len(),
{
    if second.len() > 0 {
        law_tracked_seconds_add_up(first, second.drop_last(), duration);
        assert((first + second).drop_last() =~= first + second.drop_last());
        assert((first + second).last() == second.last());
    } else {
        assert(first + second =~= first);
    }
    let single = seq![duration];
    assert(single.drop_last() =~= Seq::<i64>::empty());
    assert(single.last() == duration);
    assert(spec_tracked_seconds(single.drop_last()) == 0);
}

/// Adds up the raw seconds of the imported sessions.
pub fn tracked_seconds(durations: &Vec<i64>) -> (total: i64)
    requires
        spec_tracked_seconds(durations@) <= i64::MAX,
    ensures
        total as int == spec_tracked_seconds(durations@),
{
    let mut total: i64 = 0;
    let mut i: usize = 0;
    while i < durations.len()
        invariant
            i <= durations.len(),
            spec_tracked_seconds(durations@) <= i64::MAX,
            total as int == spec_tracked_seconds(durations@.take(i as int)),
        decreases durations.len() - i,
    {
        proof {
            lemma_tracked_seconds_grows(durations@, i + 1);
            assert(durations@.take(i + 1).drop_last() =~= durations@.take(i as int));
        }
        let d = durations[i];
        if d > 0 {
            total = total + d;
        }
        i = i + 1;
    }
    assert(durations@.take(durations.len() as int) =~= durations@);
    total
}

pub open spec fn already_imported_message() -> Seq<char> {
    "O CronoCAD ja foi importado neste M/OS. Importar de novo dobraria as horas de todo projeto, e o erro so apareceria na hora de faturar."@
}

/// Refuses a second import: once the import mark is set, importing again
/// would double every project's hours.
pub fn check_not_imported(imported_at: &Option<String>) -> (r: Result<(), CoreError>)
    ensures
        r is Ok <==> imported_at is None,
        r is Err ==> r->Err_0.code == ErrorCode::InvalidInput && r->Err_0.message@
            == already_imported_message() && !r->Err_0.retryable,
{
    match imported_at {
        Some(_) => Err(
            CoreError::new(
                ErrorCode::InvalidInput,
                "O CronoCAD ja foi importado neste M/OS. Importar de novo dobraria as horas de todo projeto, e o erro so apareceria na hora de faturar.",
                false,
            ),
        ),
        None => Ok(()),
    }
}

pub open spec fn format_error_prefix() -> Seq<char> {
    "Falha ao formatar data: "@
}

/// The error a failure to format the current time becomes.
pub fn format_error(detail: &str) -> (e: CoreError)
    ensures
        e.code == ErrorCode::Io,
        e.message@ == format_error_prefix() + detail@,
        !e.retryable,
{
    CoreError::with_message(ErrorCode::Io, text::concatenate("Falha ao formatar data: ", detail), false)
}

// ---------------------------------------------------------------------------
// The rows that come across as they are
// ---------------------------------------------------------------------------

/// A client of the source database.
#[derive(Debug)]
pub struct ClientRow {
    pub id: String,
    pub name: String,
    pub company_name: Option<String>,
    pub email: Option<String>,
    pub phone: Option<String>,
    pub notes: Option<String>,
    pub created_at: String,
    pub updated_at: String,
    pub archived_at: Option<String>,
}

/// A program CronoCAD watched for.
#[derive(Debug)]
pub struct MonitoredAppRow {
    pub id: String,
    pub display_name: String,
    pub process_name: String,
    pub enabled: i64,
    pub remind_on_open: i64,
    pub remind_on_close: i64,
    pub created_at: String,
    pub updated_at: String,
}

/// An event CronoCAD observed.
#[derive(Debug)]
pub struct ActivityEventRow {
    pub id: String,
    pub event_type: String,
    pub process_name: Option<String>,
    pub detected_at: String,
    pub metadata_json: Option<String>,
    pub processed: i64,
    pub created_at: String,
}

/// The rounding, idle and monitoring preferences, and the invoice issuer.
#[derive(Debug)]
pub struct PreferencesRow {
    pub rounding_enabled: i64,
    pub rounding_interval_minutes: i64,
    pub rounding_mode: String,
    pub idle_threshold_minutes: i64,
    pub idle_detection_enabled: i64,
    pub process_monitoring_enabled: i64,
    pub process_check_interval_seconds: i64,
    pub remind_when_monitored_app_opens: i64,
    pub remind_when_monitored_app_closes: i64,
    pub issuer_name: Option<String>,
    pub issuer_document: Option<String>,
    pub issuer_contact: Option<String>,
}

/// A text, or `NULL` when there is none, as a value.
pub open spec fn optional_cell(o: Option<String>) -> SqlValue {
    match o {
        Some(s) => SqlValue::Text(s),
        None => SqlValue::Null,
    }
}

/// The values a client row holds, in column order.
pub open spec fn client_cells(c: ClientRow) -> Seq<SqlValue> {
    seq![
        SqlValue::Text(c.id),
        SqlValue::Text(c.name),
        optional_cell(c.company_name),
        optional_cell(c.email),
        optional_cell(c.phone),
        optional_cell(c.notes),
        SqlValue::Text(c.created_at),
        SqlValue::Text(c.updated_at),
        optional_cell(c.archived_at),
    ]
}

/// The values a monitored program row holds, in column order.
pub open spec fn monitored_app_cells(a: MonitoredAppRow) -> Seq<SqlValue> {
    seq![
        SqlValue::Text(a.id),
        SqlValue::Text(a.display_name),
        SqlValue::Text(a.process_name),
        SqlValue::Integer(a.enabled),
        SqlValue::Integer(a.remind_on_open),
        SqlValue::Integer(a.remind_on_close),
        SqlValue::Text(a.created_at),
        SqlValue::Text(a.updated_at),
    ]
}

/// The values an observed event row holds, in column order.
pub open spec fn activity_event_cells(a: ActivityEventRow) -> Seq<SqlValue> {
    seq![
        SqlValue::Text(a.id),
        SqlValue::Text(a.event_type),
        optional_cell(a.process_name),
        SqlValue::Text(a.detected_at),
        optional_cell(a.metadata_json),
        SqlValue::Integer(a.processed),
        SqlValue::Text(a.created_at),
    ]
}

/// The values the preferences row holds, in column order.
pub open spec fn preference_cells(p: PreferencesRow) -> Seq<SqlValue> {
    seq![
        SqlValue::Integer(p.rounding_enabled),
        SqlValue::Integer(p.rounding_interval_minutes),
        SqlValue::Text(p.rounding_mode),
        SqlValue::Integer(p.idle_threshold_minutes),
        SqlValue::Integer(p.idle_detection_enabled),
        SqlValue::Integer(p.process_monitoring_enabled),
        SqlValue::Integer(p.process_check_interval_seconds),
        SqlValue::Integer(p.remind_when_monitored_app_opens),
        SqlValue::Integer(p.remind_when_monitored_app_closes),
        optional_cell(p.issuer_name),
        optional_cell(p.issuer_document),
        optional_cell(p.issuer_contact),
    ]
}

/// Every row `sql` returns, read as a client (`prepare`, `query_map`),
/// recorded in the trace with the rows when there are. Nothing is stated of
/// the rows: they are what the file holds.
#[verifier::external_body]
fn read_clients(origin: &rusqlite::Connection, sql: &str, trace: &mut Trace) -> (r: Result<Vec<ClientRow>, rusqlite::Error>)
    ensures
        r is Ok ==> final(trace).events@ == old(trace).events@.push(
            Event::ReadRows(sql@, Seq::empty(), r->Ok_0@.map_values(|c: ClientRow| client_cells(c))),
        ),
        r is Err ==> final(trace).events@ == old(trace).events@,
{
    let mut statement = origin.prepare(sql)?;
    let rows = statement.query_map([], |row| Ok(ClientRow {
        id: row.get(0)?, name: row.get(1)?, company_name: row.get(2)?, email: row.get(3)?,
        phone: row.get(4)?, notes: row.get(5)?, created_at: row.get(6)?,
        updated_at: row.get(7)?, archived_at: row.get(8)?,
    }))?;
    rows.collect()
}

/// Every row `sql` returns, read as a monitored program, recorded in the
/// trace with the rows when there are. Nothing is stated of the rows.
#[verifier::external_body]
fn read_monitored_apps(origin: &rusqlite::Connection, sql: &str, trace: &mut Trace) -> (r: Result<
    Vec<MonitoredAppRow>,
    rusqlite::Error,
>)
    ensures
        r is Ok ==> final(trace).events@ == old(trace).events@.push(
            Event::ReadRows(sql@, Seq::empty(), r->Ok_0@.map_values(|a: MonitoredAppRow| monitored_app_cells(a))),
        ),
        r is Err ==> final(trace).events@ == old(trace).events@,
{
    let mut statement = origin.prepare(sql)?;
    let rows = statement.query_map([], |row| Ok(MonitoredAppRow {
        id: row.get(0)?, display_name: row.get(1)?, process_name: row.get(2)?,
        enabled: row.get(3)?, remind_on_open: row.get(4)?, remind_on_close: row.get(5)?,
        created_at: row.get(6)?, updated_at: row.get(7)?,
    }))?;
    rows.collect()
}

/// Every row `sql` returns, in its order, read as an observed event,
/// recorded in the trace with the rows when there are. Nothing is stated of
/// the rows.
#[verifier::external_body]
fn read_activity_events(origin: &rusqlite::Connection, sql: &str, trace: &mut Trace) -> (r: Result<
    Vec<ActivityEventRow>,
    rusqlite::Error,
>)
    ensures
        r is Ok ==> final(trace).events@ == old(trace).events@.push(
            Event::ReadRows(sql@, Seq::empty(), r->Ok_0@.map_values(|a: ActivityEventRow| activity_event_cells(a))),
        ),
        r is Err ==> final(trace).events@ == old(trace).events@,
{
    let mut statement = origin.prepare(sql)?;
    let rows = statement.query_map([], |row| Ok(ActivityEventRow {
        id: row.get(0)?, event_type: row.get(1)?, process_name: row.get(2)?,
        detected_at: row.get(3)?, metadata_json: row.get(4)?, processed: row.get(5)?,
        created_at: row.get(6)?,
    }))?;
    rows.collect()
}

/// The first row `sql` returns, read as the preferences, or `None` when
/// there is none (`QueryReturnedNoRows`), recorded in the trace (as one row
/// or none) when the read succeeds. Nothing is stated of it.
#[verifier::external_body]
fn read_preferences(origin: &rusqlite::Connection, sql: &str, trace: &mut Trace) -> (r: Result<
    Option<PreferencesRow>,
    rusqlite::Error,
>)
    ensures
        r matches Ok(Some(p)) ==> final(trace).events@ == old(trace).events@.push(
            Event::ReadRows(sql@, Seq::empty(), seq![preference_cells(p)]),
        ),
        r matches Ok(None) ==> final(trace).events@ == old(trace).events@.push(
            Event::ReadRows(sql@, Seq::empty(), Seq::empty()),
        ),
        r is Err ==> final(trace).events@ == old(trace).events@,
{
    rusqlite::OptionalExtension::optional(origin.query_row(sql, [], |row| Ok(PreferencesRow {
        rounding_enabled: row.get(0)?, rounding_interval_minutes: row.get(1)?, rounding_mode: row.get(2)?,
        idle_threshold_minutes: row.get(3)?, idle_detection_enabled: row.get(4)?, process_monitoring_enabled: row.get(5)?,
        process_check_interval_seconds: row.get(6)?, remind_when_monitored_app_opens: row.get(7)?,
        remind_when_monitored_app_closes: row.get(8)?, issuer_name: row.get(9)?,
        issuer_document: row.get(10)?, issuer_contact: row.get(11)?,
    })))
}

// ---------------------------------------------------------------------------
// Values bound to the inserts
// ---------------------------------------------------------------------------

pub open spec fn is_text(v: SqlValue, s: Seq<char>) -> bool {
    v matches SqlValue::Text(t) && t@ == s
}

pub open spec fn is_integer(v: SqlValue, i: i64) -> bool {
    v matches SqlValue::Integer(n) && n == i
}

pub open spec fn is_optional_text(v: SqlValue, o: Option<String>) -> bool {
    match o {
        Some(s) => is_text(v, s@),
        None => v is Null,
    }
}

fn text_value(s: &String) -> (v: SqlValue)
    ensures
        is_text(v, s@),
{
    SqlValue::Text(s.clone())
}

fn optional_value(o: &Option<String>) -> (v: SqlValue)
    ensures
        is_optional_text(v, *o),
{
    match o {
        Some(s) => SqlValue::Text(s.clone()),
        None => SqlValue::Null,
    }
}

fn defaulted_value(o: &Option<String>) -> (v: SqlValue)
    ensures
        is_text(v, or_empty(*o)),
{
    match o {
        Some(s) => SqlValue::Text(s.clone()),
        None => SqlValue::Text(String::new()),
    }
}

/// The values a client is inserted with, in column order.
pub fn client_values(row: &ClientRow) -> (v: Vec<SqlValue>)
    ensures
        v@.len() == 9,
        is_text(v@[0], row.id@),
        is_text(v@[1], row.name@),
        is_optional_text(v@[2], row.company_name),
        is_optional_text(v@[3], row.email),
        is_optional_text(v@[4], row.phone),
        is_optional_text(v@[5], row.notes),
        is_text(v@[6], row.created_at@),
        is_text(v@[7], row.updated_at@),
        is_optional_text(v@[8], row.archived_at),
        sqlite::cells_match(v@, client_cells(*row)),
{
    let mut v = Vec::new();
    v.push(text_value(&row.id));
    v.push(text_value(&row.name));
    v.push(optional_value(&row.company_name));
    v.push(optional_value(&row.email));
    v.push(optional_value(&row.phone));
    v.push(optional_value(&row.notes));
    v.push(text_value(&row.created_at));
    v.push(text_value(&row.updated_at));
    v.push(optional_value(&row.archived_at));
    proof {
        let w = client_cells(*row);
        assert(forall|k: int| 0 <= k < 9 ==> sqlite::same_value(#[trigger] v@[k], w[k])) by {
            assert(sqlite::same_value(v@[0], w[0]));
            assert(sqlite::same_value(v@[1], w[1]));
            assert(sqlite::same_value(v@[2], w[2]));
            assert(sqlite::same_value(v@[3], w[3]));
            assert(sqlite::same_value(v@[4], w[4]));
            assert(sqlite::same_value(v@[5], w[5]));
            assert(sqlite::same_value(v@[6], w[6]));
            assert(sqlite::same_value(v@[7], w[7]));
            assert(sqlite::same_value(v@[8], w[8]));
        }
    }
    v
}

/// The values a monitored program is inserted with, in column order.
pub fn monitored_app_values(row: &MonitoredAppRow) -> (v: Vec<SqlValue>)
    ensures
        v@.len() == 8,
        is_text(v@[0], row.id@),
        is_text(v@[1], row.display_name@),
        is_text(v@[2], row.process_name@),
        is_integer(v@[3], row.enabled),
        is_integer(v@[4], row.remind_on_open),
        is_integer(v@[5], row.remind_on_close),
        is_text(v@[6], row.created_at@),
        is_text(v@[7], row.updated_at@),
        sqlite::cells_match(v@, monitored_app_cells(*row)),
{
    let mut v = Vec::new();
    v.push(text_value(&row.id));
    v.push(text_value(&row.display_name));
    v.push(text_value(&row.process_name));
    v.push(SqlValue::Integer(row.enabled));
    v.push(SqlValue::Integer(row.remind_on_open));
    v.push(SqlValue::Integer(row.remind_on_close));
    v.push(text_value(&row.created_at));
    v.push(text_value(&row.updated_at));
    proof {
        let w = monitored_app_cells(*row);
        assert(forall|k: int| 0 <= k < 8 ==> sqlite::same_value(#[trigger] v@[k], w[k])) by {
            assert(sqlite::same_value(v@[0], w[0]));
            assert(sqlite::same_value(v@[1], w[1]));
            assert(sqlite::same_value(v@[2], w[2]));
            assert(sqlite::same_value(v@[3], w[3]));
            assert(sqlite::same_value(v@[4], w[4]));
            assert(sqlite::same_value(v@[5], w[5]));
            assert(sqlite::same_value(v@[6], w[6]));
            assert(sqlite::same_value(v@[7], w[7]));
        }
    }
    v
}

/// The values an observed event is inserted with, in column order.
pub fn activity_event_values(row: &ActivityEventRow) -> (v: Vec<SqlValue>)
    ensures
        v@.len() == 7,
        is_text(v@[0], row.id@),
        is_text(v@[1], row.event_type@),
        is_optional_text(v@[2], row.process_name),
        is_text(v@[3], row.detected_at@),
        is_optional_text(v@[4], row.metadata_json),
        is_integer(v@[5], row.processed),
        is_text(v@[6], row.created_at@),
        sqlite::cells_match(v@, activity_event_cells(*row)),
{
    let mut v = Vec::new();
    v.push(text_value(&row.id));
    v.push(text_value(&row.event_type));
    v.push(optional_value(&row.process_name));
    v.push(text_value(&row.detected_at));
    v.push(optional_value(&row.metadata_json));
    v.push(SqlValue::Integer(row.processed));
    v.push(text_value(&row.created_at));
    proof {
        let w = activity_event_cells(*row);
        assert(forall|k: int| 0 <= k < 7 ==> sqlite::same_value(#[trigger] v@[k], w[k])) by {
            assert(sqlite::same_value(v@[0], w[0]));
            assert(sqlite::same_value(v@[1], w[1]));
            assert(sqlite::same_value(v@[2], w[2]));
            assert(sqlite::same_value(v@[3], w[3]));
            assert(sqlite::same_value(v@[4], w[4]));
            assert(sqlite::same_value(v@[5], w[5]));
            assert(sqlite::same_value(v@[6], w[6]));
        }
    }
    v
}

/// The values the preferences are written with, in column order; a missing
/// issuer field is written as an empty text.
pub fn preference_values(row: &PreferencesRow) -> (v: Vec<SqlValue>)
    ensures
        v@.len() == 12,
        is_integer(v@[0], row.rounding_enabled),
        is_integer(v@[1], row.rounding_interval_minutes),
        is_text(v@[2], row.rounding_mode@),
        is_integer(v@[3], row.idle_threshold_minutes),
        is_integer(v@[4], row.idle_detection_enabled),
        is_integer(v@[5], row.process_monitoring_enabled),
        is_integer(v@[6], row.process_check_interval_seconds),
        is_integer(v@[7], row.remind_when_monitored_app_opens),
        is_integer(v@[8], row.remind_when_monitored_app_closes),
        is_text(v@[9], or_empty(row.issuer_name)),
        is_text(v@[10], or_empty(row.issuer_document)),
        is_text(v@[11], or_empty(row.issuer_contact)),
{
    let mut v = Vec::new();
    v.push(SqlValue::Integer(row.rounding_enabled));
    v.push(SqlValue::Integer(row.rounding_interval_minutes));
    v.push(text_value(&row.rounding_mode));
    v.push(SqlValue::Integer(row.idle_threshold_minutes));
    v.push(SqlValue::Integer(row.idle_detection_enabled));
    v.push(SqlValue::Integer(row.process_monitoring_enabled));
    v.push(SqlValue::Integer(row.process_check_interval_seconds));
    v.push(SqlValue::Integer(row.remind_when_monitored_app_opens));
    v.push(SqlValue::Integer(row.remind_when_monitored_app_closes));
    v.push(defaulted_value(&row.issuer_name));
    v.push(defaulted_value(&row.issuer_document));
    v.push(defaulted_value(&row.issuer_contact));
    v
}

/// Opens a CronoCAD database read-only, so that trying again can never harm
/// the source.
pub fn open_source(path: &str) -> (r: Result<rusqlite::Connection, CoreError>)
    ensures
        outcome_well_formed(r),
{
    sql(sqlite::open_read_only(path))
}

pub const CLIENTS_QUERY: &'static str = "SELECT id, name, company_name, email, phone, notes, created_at, updated_at, archived_at FROM clients";

pub const INSERT_CLIENT: &'static str = "INSERT OR IGNORE INTO clients (id, name, company_name, email, phone, notes, created_at, updated_at, archived_at) VALUES (?1, ?2, ?3, ?4, ?5, ?6, ?7, ?8, ?9)";

pub const MONITORED_APPS_QUERY: &'static str = "SELECT id, display_name, process_name, enabled, remind_on_open, remind_on_close, created_at, updated_at FROM monitored_apps";

pub const INSERT_MONITORED_APP: &'static str = "INSERT INTO monitored_apps (id, display_name, process_name, enabled, remind_on_open, remind_on_close, created_at, updated_at) VALUES (?1, ?2, ?3, ?4, ?5, ?6, ?7, ?8) ON CONFLICT (process_name) DO UPDATE SET display_name = excluded.display_name, enabled = excluded.enabled, remind_on_open = excluded.remind_on_open, remind_on_close = excluded.remind_on_close, updated_at = excluded.updated_at";

pub const ACTIVITY_EVENTS_QUERY: &'static str = "SELECT id, event_type, process_name, detected_at, metadata_json, processed, created_at FROM activity_events ORDER BY detected_at";

pub const INSERT_ACTIVITY_EVENT: &'static str = "INSERT OR IGNORE INTO activity_events (id, event_type, process_name, detected_at, metadata_json, processed, created_at) VALUES (?1, ?2, ?3, ?4, ?5, ?6, ?7)";

pub const PREFERENCES_QUERY: &'static str = "SELECT rounding_enabled, rounding_interval_minutes, rounding_mode, idle_threshold_minutes, idle_detection_enabled, process_monitoring_enabled, process_check_interval_seconds, remind_when_monitored_app_opens, remind_when_monitored_app_closes, issuer_name, issuer_document, issuer_contact FROM settings WHERE id = 1";

pub const WRITE_PREFERENCES: &'static str = "UPDATE tracking_settings SET rounding_enabled = ?1, rounding_interval_minutes = ?2, rounding_mode = ?3, idle_threshold_minutes = ?4, idle_detection_enabled = ?5, process_monitoring_enabled = ?6, process_check_interval_seconds = ?7, remind_on_monitored_open = ?8, remind_on_monitored_close = ?9, issuer_name = ?10, issuer_document = ?11, issuer_contact = ?12 WHERE id = 1";

/// What a copy shows in the trace after `before`: the rows `query` read,
/// and then, for each of the `n` rows, in order, one execution of `insert`
/// with that row's values.
pub open spec fn copied(before: Seq<Event>, after: Seq<Event>, query: Seq<char>, insert: Seq<char>, n: int) -> bool {
    let b = before.len() as int;
    &&& extends(after, before)
    &&& after.len() == b + 1 + n
    &&& after[b] matches Event::ReadRows(q, v, rows) && q == query && rows.len() == n && forall|i: int|
        0 <= i < n ==> inserted_as(after[b + 1 + i], insert, #[trigger] rows[i])
}

/// A value written for a cell read: the same, but a missing text is written
/// as an empty one.
pub open spec fn written_as(v: SqlValue, cell: SqlValue) -> bool {
    match cell {
        SqlValue::Null => is_text(v, Seq::empty()),
        _ => sqlite::same_value(v, cell),
    }
}

/// The update of the preferences with the values of the row read.
pub open spec fn preferences_written(e: Event, cells: Seq<SqlValue>) -> bool {
    e matches Event::Execute(q, v) && q == WRITE_PREFERENCES@ && v.len() == cells.len() && forall|k: int|
        0 <= k < v.len() ==> written_as(#[trigger] v[k], cells[k])
}

pub const IMPORT_MARK: &'static str = "SELECT cronocad_imported_at FROM tracking_settings WHERE id = 1";

pub const SET_IMPORT_MARK: &'static str = "UPDATE tracking_settings SET cronocad_imported_at = ?1 WHERE id = 1";

/// The read of the import mark, and its answer.
pub open spec fn mark_read(e: Event, answer: Option<Seq<char>>) -> bool {
    e == Event::ReadOptionalText(IMPORT_MARK@, Seq::empty(), answer)
}

/// The update that sets the import mark to a time.
pub open spec fn mark_set(e: Event) -> bool {
    match e {
        Event::Execute(q, v) => q == SET_IMPORT_MARK@ && v.len() == 1 && v[0] is Text,
        _ => false,
    }
}

/// The import mark as read, recorded in the trace.
fn read_import_mark(connection: &rusqlite::Connection, trace: &mut Trace) -> (r: Result<
    Option<String>,
    CoreError,
>)
    ensures
        outcome_well_formed(r),
        r is Ok ==> final(trace).events@ == old(trace).events@.push(
            Event::ReadOptionalText(IMPORT_MARK@, Seq::empty(), optional_view(r->Ok_0)),
        ),
        r is Err ==> final(trace).events@ == old(trace).events@,
{
    sql(sqlite::query_optional_text_traced(connection, IMPORT_MARK, trace))
}

impl SqliteStorage {
    /// When CronoCAD was imported, if it was: what the trace shows the read
    /// of the import mark answered.
    pub fn cronocad_imported_at(&self, trace: &mut Trace) -> (r: Result<Option<String>, CoreError>)
        ensures
            outcome_well_formed(r),
            r is Ok ==> final(trace).events@ == old(trace).events@.push(
                Event::ReadOptionalText(IMPORT_MARK@, Seq::empty(), optional_view(r->Ok_0)),
            ),
            r is Err ==> final(trace).events@ == old(trace).events@,
    {
        read_import_mark(self.connection(), trace)
    }

    /// Refuses the import when the import mark is already set: the trace
    /// shows the read of the mark, and the answer decides through
    /// `check_not_imported`.
    pub fn ensure_not_imported(&self, trace: &mut Trace) -> (r: Result<(), CoreError>)
        ensures
            outcome_well_formed(r),
            r is Ok ==> gained(old(trace).events@, final(trace).events@, 1) && mark_read(
                final(trace).events@.last(),
                None,
            ),
            (gained(old(trace).events@, final(trace).events@, 1) && exists|stamp: Seq<char>|
                #[trigger] mark_read(final(trace).events@.last(), Some(stamp))) ==> r is Err
                && r->Err_0.code == ErrorCode::InvalidInput && r->Err_0.message@
                == already_imported_message(),
    {
        let ghost base = trace.events@;
        let imported_at = read_import_mark(self.connection(), trace);
        proof {
            if imported_at is Ok {
                lemma_push(base, Event::ReadOptionalText(IMPORT_MARK@, Seq::empty(), optional_view(imported_at->Ok_0)));
            } else {
                assert(trace.events@.len() == base.len());
            }
        }
        let imported_at = imported_at?;
        check_not_imported(&imported_at)
    }

    /// Sets the import mark to the current time: the trace shows that one
    /// update.
    pub fn mark_cronocad_imported(&self, trace: &mut Trace) -> (r: Result<(), CoreError>)
        ensures
            outcome_well_formed(r),
            r is Ok ==> gained(old(trace).events@, final(trace).events@, 1) && mark_set(
                final(trace).events@.last(),
            ),
    {
        let now = match clock::now_rfc3339() {
            Ok(now) => now,
            Err(detail) => return Err(format_error(detail.as_str())),
        };
        let ghost base = trace.events@;
        let mut values = Vec::new();
        values.push(SqlValue::Text(now));
        let done = run(self.connection(), SET_IMPORT_MARK, &values, trace);
        proof {
            lemma_push(base, Event::Execute(SET_IMPORT_MARK@, values@));
        }
        done?;
        Ok(())
    }

    /// Inserts the clients, keeping any that is already there: the trace
    /// shows one insertion per row, in order, with that row's values.
    pub fn insert_clients(&self, rows: &Vec<ClientRow>, trace: &mut Trace) -> (r: Result<usize, CoreError>)
        ensures
            outcome_well_formed(r),
            extends(final(trace).events@, old(trace).events@),
            r is Ok ==> r->Ok_0 == rows@.len() && gained(old(trace).events@, final(trace).events@, rows@.len())
                && forall|i: int|
                0 <= i < rows@.len() ==> inserted_as(
                    final(trace).events@[old(trace).events@.len() + i],
                    INSERT_CLIENT@,
                    client_cells(#[trigger] rows@[i]),
                ),
    {
        let ghost base = trace.events@;
        proof {
            lemma_extends_refl(base);
        }
        let mut count: usize = 0;
        while count < rows.len()
            invariant
                count <= rows@.len(),
                base == old(trace).events@,
                gained(base, trace.events@, count as nat),
                forall|i: int|
                    0 <= i < count ==> inserted_as(trace.events@[base.len() + i], INSERT_CLIENT@, client_cells(#[trigger] rows@[i])),
            decreases rows.len() - count,
        {
            let ghost before = trace.events@;
            let values = client_values(&rows[count]);
            let done = run(self.connection(), INSERT_CLIENT, &values, trace);
            proof {
                lemma_push(before, Event::Execute(INSERT_CLIENT@, values@));
                lemma_extends_trans(trace.events@, before, base);
            }
            done?;
            count = count + 1;
        }
        Ok(count)
    }

    /// Inserts the monitored programs; the source's choice overrides a seeded
    /// program with the same process name instead of duplicating it. The
    /// trace shows one insertion per row, in order, with that row's values.
    pub fn insert_monitored_apps(&self, rows: &Vec<MonitoredAppRow>, trace: &mut Trace) -> (r: Result<
        usize,
        CoreError,
    >)
        ensures
            outcome_well_formed(r),
            extends(final(trace).events@, old(trace).events@),
            r is Ok ==> r->Ok_0 == rows@.len() && gained(old(trace).events@, final(trace).events@, rows@.len())
                && forall|i: int|
                0 <= i < rows@.len() ==> inserted_as(
                    final(trace).events@[old(trace).events@.len() + i],
                    INSERT_MONITORED_APP@,
                    monitored_app_cells(#[trigger] rows@[i]),
                ),
    {
        let ghost base = trace.events@;
        proof {
            lemma_extends_refl(base);
        }
        let mut count: usize = 0;
        while count < rows.len()
            invariant
                count <= rows@.len(),
                base == old(trace).events@,
                gained(base, trace.events@, count as nat),
                forall|i: int|
                    0 <= i < count ==> inserted_as(trace.events@[base.len() + i], INSERT_MONITORED_APP@, monitored_app_cells(#[trigger] rows@[i])),
            decreases rows.len() - count,
        {
            let ghost before = trace.events@;
            let values = monitored_app_values(&rows[count]);
            let done = run(self.connection(), INSERT_MONITORED_APP, &values, trace);
            proof {
                lemma_push(before, Event::Execute(INSERT_MONITORED_APP@, values@));
                lemma_extends_trans(trace.events@, before, base);
            }
            done?;
            count = count + 1;
        }
        Ok(count)
    }

    /// Inserts the observed events, keeping any that is already there: the
    /// trace shows one insertion per row, in order, with that row's values.
    pub fn insert_activity_events(&self, rows: &Vec<ActivityEventRow>, trace: &mut Trace) -> (r: Result<
        usize,
        CoreError,
    >)
        ensures
            outcome_well_formed(r),
            extends(final(trace).events@, old(trace).events@),
            r is Ok ==> r->Ok_0 == rows@.len() && gained(old(trace).events@, final(trace).events@, rows@.len())
                && forall|i: int|
                0 <= i < rows@.len() ==> inserted_as(
                    final(trace).events@[old(trace).events@.len() + i],
                    INSERT_ACTIVITY_EVENT@,
                    activity_event_cells(#[trigger] rows@[i]),
                ),
    {
        let ghost base = trace.events@;
        proof {
            lemma_extends_refl(base);
        }
        let mut count: usize = 0;
        while count < rows.len()
            invariant
                count <= rows@.len(),
                base == old(trace).events@,
                gained(base, trace.events@, count as nat),
                forall|i: int|
                    0 <= i < count ==> inserted_as(trace.events@[base.len() + i], INSERT_ACTIVITY_EVENT@, activity_event_cells(#[trigger] rows@[i])),
            decreases rows.len() - count,
        {
            let ghost before = trace.events@;
            let values = activity_event_values(&rows[count]);
            let done = run(self.connection(), INSERT_ACTIVITY_EVENT, &values, trace);
            proof {
                lemma_push(before, Event::Execute(INSERT_ACTIVITY_EVENT@, values@));
                lemma_extends_trans(trace.events@, before, base);
            }
            done?;
            count = count + 1;
        }
        Ok(count)
    }

    /// Writes the preferences over the single settings row: the trace shows
    /// that one update with the preferences' values.
    pub fn write_preferences(&self, row: &PreferencesRow, trace: &mut Trace) -> (r: Result<(), CoreError>)
        ensures
            outcome_well_formed(r),
            final(trace).events@ == old(trace).events@.push(
                Event::Execute(WRITE_PREFERENCES@, final(trace).events@.last()->Execute_1),
            ),
            preferences_written(final(trace).events@.last(), preference_cells(*row)),
    {
        let values = preference_values(row);
        let done = run(self.connection(), WRITE_PREFERENCES, &values, trace);
        proof {
            let w = preference_cells(*row);
            assert(forall|k: int| 0 <= k < 12 ==> written_as(#[trigger] values@[k], w[k])) by {
                assert(written_as(values@[0], w[0]));
                assert(written_as(values@[1], w[1]));
                assert(written_as(values@[2], w[2]));
                assert(written_as(values@[3], w[3]));
                assert(written_as(values@[4], w[4]));
                assert(written_as(values@[5], w[5]));
                assert(written_as(values@[6], w[6]));
                assert(written_as(values@[7], w[7]));
                assert(written_as(values@[8], w[8]));
                assert(written_as(values@[9], w[9]));
                assert(written_as(values@[10], w[10]));
                assert(written_as(values@[11], w[11]));
            }
        }
        done?;
        Ok(())
    }

    /// Brings every client of the source across; returns how many. The
    /// trace shows the rows read and then one insertion per row read, in
    /// order, with its values.
    pub fn copy_clients(&self, origin: &rusqlite::Connection, trace: &mut Trace) -> (r: Result<usize, CoreError>)
        ensures
            outcome_well_formed(r),
            r is Ok ==> copied(old(trace).events@, final(trace).events@, CLIENTS_QUERY@, INSERT_CLIENT@, r->Ok_0 as int),
    {
        let ghost base = trace.events@;
        let read = read_clients(origin, CLIENTS_QUERY, trace);
        let ghost t1 = trace.events@;
        let rows = sql(read)?;
        let copied = self.insert_clients(&rows, trace);
        proof {
            if copied is Ok {
                lemma_push(base, t1.last());
                lemma_extends_trans(trace.events@, t1, base);
                crate::sqlite::lemma_kept_at(trace.events@, t1, base.len() as int);
                let cells = rows@.map_values(|c: ClientRow| client_cells(c));
                assert forall|i: int| 0 <= i < rows@.len() implies inserted_as(
                    trace.events@[base.len() + 1 + i],
                    INSERT_CLIENT@,
                    #[trigger] cells[i],
                ) by {
                    assert(cells[i] == client_cells(rows@[i]));
                }
            }
        }
        copied
    }

    /// Brings every monitored program of the source across; returns how
    /// many. The trace shows the rows read and then one insertion per row
    /// read, in order, with its values.
    pub fn copy_monitored_apps(&self, origin: &rusqlite::Connection, trace: &mut Trace) -> (r: Result<
        usize,
        CoreError,
    >)
        ensures
            outcome_well_formed(r),
            r is Ok ==> copied(old(trace).events@, final(trace).events@, MONITORED_APPS_QUERY@, INSERT_MONITORED_APP@, r->Ok_0 as int),
    {
        let ghost base = trace.events@;
        let read = read_monitored_apps(origin, MONITORED_APPS_QUERY, trace);
        let ghost t1 = trace.events@;
        let rows = sql(read)?;
        let copied = self.insert_monitored_apps(&rows, trace);
        proof {
            if copied is Ok {
                lemma_push(base, t1.last());
                lemma_extends_trans(trace.events@, t1, base);
                crate::sqlite::lemma_kept_at(trace.events@, t1, base.len() as int);
                let cells = rows@.map_values(|a: MonitoredAppRow| monitored_app_cells(a));
                assert forall|i: int| 0 <= i < rows@.len() implies inserted_as(
                    trace.events@[base.len() + 1 + i],
                    INSERT_MONITORED_APP@,
                    #[trigger] cells[i],
                ) by {
                    assert(cells[i] == monitored_app_cells(rows@[i]));
                }
            }
        }
        copied
    }

    /// Brings the observed history of the source across; returns how many
    /// events. The trace shows the rows read and then one insertion per row
    /// read, in order, with its values.
    pub fn copy_activity_events(&self, origin: &rusqlite::Connection, trace: &mut Trace) -> (r: Result<
        usize,
        CoreError,
    >)
        ensures
            outcome_well_formed(r),
            r is Ok ==> copied(old(trace).events@, final(trace).events@, ACTIVITY_EVENTS_QUERY@, INSERT_ACTIVITY_EVENT@, r->Ok_0 as int),
    {
        let ghost base = trace.events@;
        let read = read_activity_events(origin, ACTIVITY_EVENTS_QUERY, trace);
        let ghost t1 = trace.events@;
        let rows = sql(read)?;
        let copied = self.insert_activity_events(&rows, trace);
        proof {
            if copied is Ok {
                lemma_push(base, t1.last());
                lemma_extends_trans(trace.events@, t1, base);
                crate::sqlite::lemma_kept_at(trace.events@, t1, base.len() as int);
                let cells = rows@.map_values(|a: ActivityEventRow| activity_event_cells(a));
                assert forall|i: int| 0 <= i < rows@.len() implies inserted_as(
                    trace.events@[base.len() + 1 + i],
                    INSERT_ACTIVITY_EVENT@,
                    #[trigger] cells[i],
                ) by {
                    assert(cells[i] == activity_event_cells(rows@[i]));
                }
            }
        }
        copied
    }

    /// Brings the rounding, idle and monitoring preferences and the invoice
    /// issuer across, when the source has them. The trace shows the row read
    /// (or that there was none) and, for a row, the update with its values, a
    /// missing issuer field as an empty text.
    pub fn copy_preferences(&self, origin: &rusqlite::Connection, trace: &mut Trace) -> (r: Result<(), CoreError>)
        ensures
            outcome_well_formed(r),
            r is Ok ==> {
                let e = final(trace).events@;
                let b = old(trace).events@.len() as int;
                &&& extends(e, old(trace).events@)
                &&& e.len() > b
                &&& e[b] matches Event::ReadRows(q, v, rows) && q == PREFERENCES_QUERY@ && rows.len() <= 1
                    && (rows.len() == 0 ==> e.len() == b + 1) && (rows.len() == 1 ==> e.len() == b + 2
                    && preferences_written(e[b + 1], rows[0]))
            },
    {
        let ghost base = trace.events@;
        let read = read_preferences(origin, PREFERENCES_QUERY, trace);
        let ghost t1 = trace.events@;
        let found = sql(read)?;
        proof {
            lemma_push(base, t1.last());
        }
        match found {
            Some(row) => {
                let written = self.write_preferences(&row, trace);
                proof {
                    lemma_push(t1, trace.events@.last());
                    lemma_extends_trans(trace.events@, t1, base);
                }
                written
            },
            None => Ok(()),
        }
    }
}

} // verus!
