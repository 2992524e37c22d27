//! The bookkeeping of an external academic provider: the state of its
//! connection, the references that tie its entities to local ones, and what
//! disconnecting removes (the references and caches, never the academic
//! entities themselves).

use vstd::prelude::*;
use crate::academic::{
    estado_str, spec_estado_str, spec_resultado_str, ProviderConnection, SyncOutcome,
};
use crate::clock;
use crate::cronocad::format_error;
use crate::error::CoreError;
use crate::sqlite::{
    self, commits, extends, gained, keyed_execute, lemma_extends_refl, lemma_extends_trans,
    lemma_push, lemma_step, one_more, ran_with, text_value, Event, SqlValue, Trace,
};
use crate::storage::{finish, outcome_well_formed, run, sql, SqliteStorage};
use crate::text;

verus! {

/// The kind of entity an external reference points to.
#[derive(Clone, Copy, Debug, PartialEq, Eq, Structural)]
pub enum ExternalKind {
    Semester,
    Subject,
    Exam,
    Assignment,
    Material,
}

pub open spec fn spec_kind_str(kind: ExternalKind) -> Seq<char> {
    match kind {
        ExternalKind::Semester => "semester"@,
        ExternalKind::Subject => "subject"@,
        ExternalKind::Exam => "exam"@,
        ExternalKind::Assignment => "assignment"@,
        ExternalKind::Material => "material"@,
    }
}

/// The word stored in `academic_external_refs.kind`.
pub fn kind_str(kind: ExternalKind) -> (s: &'static str)
    ensures
        s@ == spec_kind_str(kind),
{
    match kind {
        ExternalKind::Semester => "semester",
        ExternalKind::Subject => "subject",
        ExternalKind::Exam => "exam",
        ExternalKind::Assignment => "assignment",
        ExternalKind::Material => "material",
    }
}

/// An external entity the provider stopped reporting.
#[derive(Debug)]
pub struct Missing {
    pub kind: ExternalKind,
    pub external_id: String,
}

// ---------------------------------------------------------------------------
// Reading back the stored words
// ---------------------------------------------------------------------------

pub open spec fn spec_parse_connection(stored: Seq<char>) -> ProviderConnection {
    if stored == "connected"@ {
        ProviderConnection::Connected
    } else if stored == "expired"@ {
        ProviderConnection::Expired
    } else {
        ProviderConnection::Disconnected
    }
}

/// The connection state a stored word stands for; anything unknown reads as
/// disconnected.
pub fn parse_connection(stored: &str) -> (c: ProviderConnection)
    ensures
        c == spec_parse_connection(stored@),
{
    if text::same_text(stored, "connected") {
        ProviderConnection::Connected
    } else if text::same_text(stored, "expired") {
        ProviderConnection::Expired
    } else {
        ProviderConnection::Disconnected
    }
}

pub open spec fn spec_parse_outcome(stored: Seq<char>) -> Option<SyncOutcome> {
    if stored == "completed"@ {
        Some(SyncOutcome::Completed)
    } else if stored == "completed_with_warnings"@ {
        Some(SyncOutcome::CompletedWithWarnings)
    } else if stored == "requires_authentication"@ {
        Some(SyncOutcome::RequiresAuthentication)
    } else if stored == "failed"@ {
        Some(SyncOutcome::Failed)
    } else {
        None
    }
}

/// The outcome a stored word stands for; anything unknown is no outcome.
pub fn parse_outcome(stored: &str) -> (o: Option<SyncOutcome>)
    ensures
        o == spec_parse_outcome(stored@),
{
    if text::same_text(stored, "completed") {
        Some(SyncOutcome::Completed)
    } else if text::same_text(stored, "completed_with_warnings") {
        Some(SyncOutcome::CompletedWithWarnings)
    } else if text::same_text(stored, "requires_authentication") {
        Some(SyncOutcome::RequiresAuthentication)
    } else if text::same_text(stored, "failed") {
        Some(SyncOutcome::Failed)
    } else {
        None
    }
}

/// What is written reads back as what was meant: a connection state and a
/// synchronisation outcome survive being stored as words.
pub proof fn law_stored_states_read_back(c: ProviderConnection, o: SyncOutcome)
    ensures
        spec_parse_connection(spec_estado_str(c)) == c,
        spec_parse_outcome(spec_resultado_str(o)) == Some(o),
{
    reveal_strlit("disconnected");
    reveal_strlit("connected");
    reveal_strlit("expired");
    reveal_strlit("completed");
    reveal_strlit("completed_with_warnings");
    reveal_strlit("requires_authentication");
    reveal_strlit("failed");
    assert("disconnected"@.len() != "connected"@.len());
    assert("disconnected"@.len() != "expired"@.len() || "disconnected"@[0] != "expired"@[0]);
    assert("expired"@.len() != "connected"@.len());
    assert("completed_with_warnings"@.len() != "completed"@.len() || "completed_with_warnings"@[0] != "completed"@[0]);
    assert("requires_authentication"@.len() != "completed"@.len() || "requires_authentication"@[0] != "completed"@[0]);
    assert("requires_authentication"@.len() != "completed_with_warnings"@.len() || "requires_authentication"@[0] != "completed_with_warnings"@[0]);
    assert("failed"@.len() != "completed"@.len() || "failed"@[0] != "completed"@[0]);
    assert("failed"@.len() != "completed_with_warnings"@.len() || "failed"@[0] != "completed_with_warnings"@[0]);
    assert("failed"@.len() != "requires_authentication"@.len() || "failed"@[0] != "requires_authentication"@[0]);
}

pub open spec fn spec_tracked_count(total: i64) -> int {
    if total < 0 {
        0
    } else {
        total as int
    }
}

/// A stored count of live references: negative counts read as zero.
pub fn tracked_count(total: i64) -> (n: usize)
    ensures
        n == spec_tracked_count(total) as usize,
{
    let clamped: i64 = if total < 0 {
        0
    } else {
        total
    };
    clamped as usize
}

// ---------------------------------------------------------------------------
// The status of a provider
// ---------------------------------------------------------------------------

/// The stored state of a provider, as its row holds it.
#[derive(Debug)]
pub struct ProviderStateRow {
    pub connection: String,
    pub course_name: String,
    pub last_sync_at: Option<String>,
    pub last_outcome: Option<String>,
}

/// What the product shows about a provider: the state of its connection,
/// the course it reported, when it last synchronised and how that went, and
/// how many of its references are live, per kind (ordered by kind, each
/// kind once).
#[derive(Debug)]
pub struct ProviderStatus {
    pub provider: String,
    pub connection: ProviderConnection,
    pub last_sync_at: Option<String>,
    pub last_outcome: Option<SyncOutcome>,
    pub course_name: String,
    pub live_references: Vec<(String, usize)>,
}

pub open spec fn optional_view(value: Option<String>) -> Option<Seq<char>> {
    match value {
        Some(text) => Some(text@),
        None => None,
    }
}

pub open spec fn spec_read_outcome(stored: Option<String>) -> Option<SyncOutcome> {
    match stored {
        Some(word) => spec_parse_outcome(word@),
        None => None,
    }
}

/// Counts per key as the storage reports them: negative counts read as zero.
pub fn clamped_counts(counts: Vec<(String, i64)>) -> (c: Vec<(String, usize)>)
    ensures
        c@.len() == counts@.len(),
        forall|i: int|
            0 <= i < counts@.len() ==> (#[trigger] c@[i]).0@ == counts@[i].0@ && c@[i].1
                == spec_tracked_count(counts@[i].1) as usize,
{
    let mut clamped: Vec<(String, usize)> = Vec::new();
    let mut i: usize = 0;
    while i < counts.len()
        invariant
            i <= counts@.len(),
            clamped@.len() == i,
            forall|k: int|
                0 <= k < i ==> (#[trigger] clamped@[k]).0@ == counts@[k].0@ && clamped@[k].1
                    == spec_tracked_count(counts@[k].1) as usize,
        decreases counts@.len() - i,
    {
        let n = tracked_count(counts[i].1);
        clamped.push((counts[i].0.clone(), n));
        i = i + 1;
    }
    clamped
}

/// The status of a provider from its stored row, if it has one, and the
/// live references counted per kind: a provider without a row is
/// disconnected, with no course, no synchronisation and no outcome.
pub fn status_from_rows(
    provider: &str,
    state: Option<ProviderStateRow>,
    counts: Vec<(String, i64)>,
) -> (s: ProviderStatus)
    ensures
        s.provider@ == provider@,
        state is None ==> s.connection == ProviderConnection::Disconnected && s.course_name@.len()
            == 0 && s.last_sync_at is None && s.last_outcome is None,
        state is Some ==> s.connection == spec_parse_connection(state->Some_0.connection@)
            && s.course_name@ == state->Some_0.course_name@ && optional_view(s.last_sync_at)
            == optional_view(state->Some_0.last_sync_at) && s.last_outcome == spec_read_outcome(
            state->Some_0.last_outcome),
        s.live_references@.len() == counts@.len(),
        forall|i: int|
            0 <= i < counts@.len() ==> (#[trigger] s.live_references@[i]).0@ == counts@[i].0@
                && s.live_references@[i].1 == spec_tracked_count(counts@[i].1) as usize,
{
    let live_references = clamped_counts(counts);
    match state {
        None => ProviderStatus {
            provider: String::from_str(provider),
            connection: ProviderConnection::Disconnected,
            last_sync_at: None,
            last_outcome: None,
            course_name: String::new(),
            live_references,
        },
        Some(row) => {
            let connection = parse_connection(row.connection.as_str());
            let last_outcome = match &row.last_outcome {
                Some(word) => parse_outcome(word.as_str()),
                None => None,
            };
            ProviderStatus {
                provider: String::from_str(provider),
                connection,
                last_sync_at: row.last_sync_at,
                last_outcome,
                course_name: row.course_name,
                live_references,
            }
        },
    }
}

/// The values a stored provider state row holds, in column order.
pub open spec fn state_cells(row: ProviderStateRow) -> Seq<SqlValue> {
    seq![
        SqlValue::Text(row.connection),
        SqlValue::Text(row.course_name),
        crate::cronocad::optional_cell(row.last_sync_at),
        crate::cronocad::optional_cell(row.last_outcome),
    ]
}

/// The first row `sql` returns with the provider bound to `?1`, read as a
/// provider state (`Connection::query_row`, `optional`), if there is one;
/// recorded in the trace (as that row, or none) when the read succeeds.
/// Nothing is stated of it.
#[verifier::external_body]
fn read_provider_state(connection: &rusqlite::Connection, sql: &str, provider: &str, trace: &mut Trace) -> (r: Result<
    Option<ProviderStateRow>,
    rusqlite::Error,
>)
    ensures
        r is Ok ==> {
            &&& one_more(old(trace).events@, final(trace).events@)
            &&& final(trace).events@.last() matches Event::ReadRows(q, v, rows) && q == sql@
                && sqlite::bound_texts(v, seq![provider@]) && rows == match r->Ok_0 {
                Some(row) => seq![state_cells(row)],
                None => Seq::empty(),
            }
        },
        r is Err ==> final(trace).events@ == old(trace).events@,
{
    rusqlite::OptionalExtension::optional(connection.query_row(
        sql,
        [provider],
        |row| Ok(ProviderStateRow { connection: row.get(0)?, course_name: row.get(1)?, last_sync_at: row.get(2)?, last_outcome: row.get(3)? }),
    ))
}

/// The text a value holds, if it holds one.
pub open spec fn cell_text(v: SqlValue) -> Option<Seq<char>> {
    match v {
        SqlValue::Text(t) => Some(t@),
        _ => None,
    }
}

/// `s` is the status of `provider` for the state rows and live counts read.
pub open spec fn status_read(
    s: ProviderStatus,
    provider: Seq<char>,
    rows: Seq<Seq<SqlValue>>,
    counts: Seq<(Seq<char>, i64)>,
) -> bool {
    &&& s.provider@ == provider
    &&& rows.len() == 0 ==> s.connection == ProviderConnection::Disconnected && s.course_name@.len() == 0
        && s.last_sync_at is None && s.last_outcome is None
    &&& rows.len() == 1 ==> {
        &&& rows[0].len() == 4
        &&& cell_text(rows[0][0]) is Some
        &&& s.connection == spec_parse_connection(cell_text(rows[0][0])->Some_0)
        &&& cell_text(rows[0][1]) == Some(s.course_name@)
        &&& cell_text(rows[0][2]) == optional_view(s.last_sync_at)
        &&& s.last_outcome == match cell_text(rows[0][3]) {
            Some(word) => spec_parse_outcome(word),
            None => None,
        }
    }
    &&& s.live_references@.len() == counts.len()
    &&& forall|i: int|
        0 <= i < counts.len() ==> (#[trigger] s.live_references@[i]).0@ == counts[i].0
            && s.live_references@[i].1 == spec_tracked_count(counts[i].1) as usize
}

// ---------------------------------------------------------------------------
// References
// ---------------------------------------------------------------------------

/// A stored reference from an external entity to a local one; the times are
/// in the stored time format.
#[derive(Debug)]
pub struct ExternalRef {
    pub provider: String,
    pub kind: ExternalKind,
    pub external_id: String,
    pub local_id: String,
    pub payload_hash: String,
    pub unavailable_since: Option<String>,
    pub first_synced_at: String,
    pub last_synced_at: String,
}

/// A row of `academic_external_refs` without its key columns.
#[derive(Debug)]
pub struct ExternalRefRow {
    pub external_id: String,
    pub local_id: String,
    pub payload_hash: String,
    pub unavailable_since: Option<String>,
    pub first_synced_at: String,
    pub last_synced_at: String,
}

/// The reference a row stands for, under its provider and kind.
pub fn external_ref_from_row(provider: &str, kind: ExternalKind, row: ExternalRefRow) -> (r: ExternalRef)
    ensures
        r.provider@ == provider@,
        r.kind == kind,
        r.external_id@ == row.external_id@,
        r.local_id@ == row.local_id@,
        r.payload_hash@ == row.payload_hash@,
        optional_view(r.unavailable_since) == optional_view(row.unavailable_since),
        r.first_synced_at@ == row.first_synced_at@,
        r.last_synced_at@ == row.last_synced_at@,
{
    ExternalRef {
        provider: String::from_str(provider),
        kind,
        external_id: row.external_id,
        local_id: row.local_id,
        payload_hash: row.payload_hash,
        unavailable_since: row.unavailable_since,
        first_synced_at: row.first_synced_at,
        last_synced_at: row.last_synced_at,
    }
}

/// The values a stored reference row holds, in column order.
pub open spec fn ref_cells(row: ExternalRefRow) -> Seq<SqlValue> {
    seq![
        SqlValue::Text(row.external_id),
        SqlValue::Text(row.local_id),
        SqlValue::Text(row.payload_hash),
        crate::cronocad::optional_cell(row.unavailable_since),
        SqlValue::Text(row.first_synced_at),
        SqlValue::Text(row.last_synced_at),
    ]
}

/// `r` is the reference the stored values `cells` stand for, under its
/// provider and kind.
pub open spec fn ref_holds(cells: Seq<SqlValue>, r: ExternalRef, provider: Seq<char>, kind: ExternalKind) -> bool {
    &&& cells.len() == 6
    &&& r.provider@ == provider
    &&& r.kind == kind
    &&& text_value(cells[0], r.external_id@)
    &&& text_value(cells[1], r.local_id@)
    &&& text_value(cells[2], r.payload_hash@)
    &&& match r.unavailable_since {
        Some(t) => text_value(cells[3], t@),
        None => cells[3] is Null,
    }
    &&& text_value(cells[4], r.first_synced_at@)
    &&& text_value(cells[5], r.last_synced_at@)
}

pub const REFS_OF: &'static str = "SELECT external_id, local_id, payload_hash, unavailable_since, first_synced_at, last_synced_at FROM academic_external_refs WHERE provider = ?1 AND kind = ?2";

/// Every row `sql` returns with the provider and kind bound to `?1` and
/// `?2`, read as a reference row (`prepare`, `query_map`), recorded in the
/// trace with the rows when there are. Nothing is stated of them.
#[verifier::external_body]
fn read_external_refs(connection: &rusqlite::Connection, sql: &str, provider: &str, kind: &str, trace: &mut Trace) -> (r: Result<
    Vec<ExternalRefRow>,
    rusqlite::Error,
>)
    ensures
        r is Ok ==> {
            &&& one_more(old(trace).events@, final(trace).events@)
            &&& final(trace).events@.last() matches Event::ReadRows(q, v, rows) && q == sql@
                && sqlite::bound_texts(v, seq![provider@, kind@])
                && rows == r->Ok_0@.map_values(|row: ExternalRefRow| ref_cells(row))
        },
        r is Err ==> final(trace).events@ == old(trace).events@,
{
    let mut statement = connection.prepare(sql)?;
    let rows = statement.query_map([provider, kind], |row| Ok(ExternalRefRow { external_id: row.get(0)?, local_id: row.get(1)?, payload_hash: row.get(2)?, unavailable_since: row.get(3)?, first_synced_at: row.get(4)?, last_synced_at: row.get(5)? }))?;
    rows.collect()
}

/// Every stored reference of a provider to entities of one kind, live or
/// marked absent: the trace shows the rows read, and the references are the
/// ones those rows stand for, in the same order.
pub fn ler_refs(connection: &rusqlite::Connection, provider: &str, kind: ExternalKind, trace: &mut Trace) -> (r: Result<
    Vec<ExternalRef>,
    CoreError,
>)
    ensures
        outcome_well_formed(r),
        r is Ok ==> forall|i: int|
            0 <= i < r->Ok_0@.len() ==> (#[trigger] r->Ok_0@[i]).provider@ == provider@
                && r->Ok_0@[i].kind == kind,
        r is Ok ==> {
            &&& one_more(old(trace).events@, final(trace).events@)
            &&& final(trace).events@.last() matches Event::ReadRows(q, v, rows) && q == REFS_OF@
                && sqlite::bound_texts(v, seq![provider@, spec_kind_str(kind)]) && rows.len() == r->Ok_0@.len()
                && forall|i: int| 0 <= i < rows.len() ==> ref_holds(#[trigger] rows[i], r->Ok_0@[i], provider@, kind)
        },
{
    let read = read_external_refs(connection, REFS_OF, provider, kind_str(kind), trace);
    let mut rows = sql(read)?;
    let ghost fetched = rows@;
    let ghost cells = rows@.map_values(|row: ExternalRefRow| ref_cells(row));
    let total = rows.len();
    let mut refs: Vec<ExternalRef> = Vec::new();
    let mut reversed: Vec<ExternalRef> = Vec::new();
    let mut taken: usize = 0;
    while taken < total
        invariant
            total == fetched.len(),
            cells == fetched.map_values(|row: ExternalRefRow| ref_cells(row)),
            taken <= total,
            rows@ == fetched.take(total - taken),
            reversed@.len() == taken,
            forall|j: int| 0 <= j < taken ==> ref_holds(cells[total - 1 - j], #[trigger] reversed@[j], provider@, kind),
        decreases total - taken,
    {
        let row = rows.pop().unwrap();
        proof {
            assert(row == fetched[total - 1 - taken]);
            assert(fetched.take(total - taken).drop_last() =~= fetched.take(total - taken - 1));
        }
        reversed.push(external_ref_from_row(provider, kind, row));
        taken = taken + 1;
    }
    while reversed.len() > 0
        invariant
            total == fetched.len(),
            cells.len() == total,
            reversed@.len() + refs@.len() == total,
            forall|j: int| 0 <= j < reversed@.len() ==> ref_holds(cells[total - 1 - j], #[trigger] reversed@[j], provider@, kind),
            forall|k: int| 0 <= k < refs@.len() ==> ref_holds(cells[k], #[trigger] refs@[k], provider@, kind),
        decreases reversed@.len(),
    {
        let item = reversed.pop().unwrap();
        refs.push(item);
    }
    Ok(refs)
}

pub const MARK_ABSENT: &'static str = "UPDATE academic_external_refs SET unavailable_since = ?4, last_synced_at = ?4 WHERE provider = ?1 AND kind = ?2 AND external_id = ?3 AND unavailable_since IS NULL";

pub const UPSERT_REF: &'static str = "INSERT INTO academic_external_refs (provider, kind, external_id, local_id, payload_hash, unavailable_since, first_synced_at, last_synced_at) VALUES (?1, ?2, ?3, ?4, ?5, NULL, ?6, ?6) ON CONFLICT(provider, kind, external_id) DO UPDATE SET local_id = excluded.local_id, payload_hash = excluded.payload_hash, unavailable_since = NULL, last_synced_at = excluded.last_synced_at";

pub const TOUCH_REF: &'static str = "UPDATE academic_external_refs SET last_synced_at = ?4, unavailable_since = NULL WHERE provider = ?1 AND kind = ?2 AND external_id = ?3";

/// Records (or refreshes) the link between an external entity and its local
/// row, with the hash of what the provider sent and the moment: the trace
/// shows that one upsert with those values.
pub fn gravar_ref(
    transaction: &rusqlite::Connection,
    provider: &str,
    kind: ExternalKind,
    external_id: &str,
    local_id: &str,
    hash: &str,
    agora: &str,
    trace: &mut Trace,
) -> (r: Result<(), CoreError>)
    ensures
        outcome_well_formed(r),
        one_more(old(trace).events@, final(trace).events@),
        ran_with(
            final(trace).events@.last(),
            UPSERT_REF@,
            seq![provider@, spec_kind_str(kind), external_id@, local_id@, hash@, agora@],
        ),
{
    let items = vec![provider, kind_str(kind), external_id, local_id, hash, agora];
    let values = sqlite::text_values(&items);
    let ghost base = trace.events@;
    let done = run(transaction, UPSERT_REF, &values, trace);
    proof {
        assert(trace.events@.drop_last() =~= base);
        assert(sqlite::str_views(items@) =~= seq![provider@, spec_kind_str(kind), external_id@, local_id@, hash@, agora@]);
    }
    done?;
    Ok(())
}

/// Records that an unchanged external entity was seen again: the trace
/// shows that one update with the provider, kind, id and moment.
pub fn tocar_ref(
    transaction: &rusqlite::Connection,
    provider: &str,
    kind: ExternalKind,
    external_id: &str,
    agora: &str,
    trace: &mut Trace,
) -> (r: Result<(), CoreError>)
    ensures
        outcome_well_formed(r),
        one_more(old(trace).events@, final(trace).events@),
        ran_with(final(trace).events@.last(), TOUCH_REF@, seq![provider@, spec_kind_str(kind), external_id@, agora@]),
{
    let items = vec![provider, kind_str(kind), external_id, agora];
    let values = sqlite::text_values(&items);
    let ghost base = trace.events@;
    let done = run(transaction, TOUCH_REF, &values, trace);
    proof {
        assert(trace.events@.drop_last() =~= base);
        assert(sqlite::str_views(items@) =~= seq![provider@, spec_kind_str(kind), external_id@, agora@]);
    }
    done?;
    Ok(())
}

/// Marks the entities that disappeared, and never deletes them; returns how
/// many references were newly marked. The trace shows one update per
/// missing entity, in order, each keyed by the provider, kind and external
/// id, with the moment.
pub fn marcar_ausente(
    transaction: &rusqlite::Connection,
    provider: &str,
    faltantes: &Vec<Missing>,
    agora: &str,
    trace: &mut Trace,
) -> (r: Result<usize, CoreError>)
    ensures
        outcome_well_formed(r),
        faltantes@.len() == 0 ==> r is Ok && r->Ok_0 == 0,
        extends(final(trace).events@, old(trace).events@),
        r is Ok ==> gained(old(trace).events@, final(trace).events@, faltantes@.len()) && forall|i: int|
            0 <= i < faltantes@.len() ==> ran_with(
                final(trace).events@[old(trace).events@.len() + i],
                MARK_ABSENT@,
                seq![provider@, spec_kind_str(#[trigger] faltantes@[i].kind), faltantes@[i].external_id@, agora@],
            ),
{
    let ghost base = trace.events@;
    proof {
        lemma_extends_refl(base);
    }
    let mut n: usize = 0;
    let mut i: usize = 0;
    while i < faltantes.len()
        invariant
            faltantes@.len() == 0 ==> n == 0,
            i <= faltantes@.len(),
            base == old(trace).events@,
            gained(base, trace.events@, i as nat),
            forall|k: int|
                0 <= k < i ==> ran_with(
                    trace.events@[base.len() + k],
                    MARK_ABSENT@,
                    seq![provider@, spec_kind_str(#[trigger] faltantes@[k].kind), faltantes@[k].external_id@, agora@],
                ),
        decreases faltantes.len() - i,
    {
        let items = vec![provider, kind_str(faltantes[i].kind), faltantes[i].external_id.as_str(), agora];
        let values = sqlite::text_values(&items);
        let ghost before = trace.events@;
        let changed = run(transaction, MARK_ABSENT, &values, trace);
        proof {
            assert(sqlite::str_views(items@) =~= seq![provider@, spec_kind_str(faltantes@[i as int].kind), faltantes@[i as int].external_id@, agora@]);
            lemma_push(before, Event::Execute(MARK_ABSENT@, values@));
            lemma_extends_trans(trace.events@, before, base);
        }
        let changed = changed?;
        n = n.saturating_add(changed);
        i = i + 1;
    }
    Ok(n)
}

pub open spec fn spec_owner_query(kind: ExternalKind) -> Option<Seq<char>> {
    match kind {
        ExternalKind::Exam => Some(
            "SELECT r.external_id, sr.external_id FROM academic_external_refs r JOIN academic_exams e ON e.id = r.local_id JOIN academic_external_refs sr ON sr.local_id = e.subject_id AND sr.kind = 'subject' AND sr.provider = r.provider WHERE r.provider = ?1 AND r.kind = 'exam'"@,
        ),
        ExternalKind::Assignment => Some(
            "SELECT r.external_id, sr.external_id FROM academic_external_refs r JOIN academic_assignments a ON a.id = r.local_id JOIN academic_external_refs sr ON sr.local_id = a.subject_id AND sr.kind = 'subject' AND sr.provider = r.provider WHERE r.provider = ?1 AND r.kind = 'assignment'"@,
        ),
        ExternalKind::Material => Some(
            "SELECT r.external_id, sr.external_id FROM academic_external_refs r JOIN academic_subject_resources sr_link ON sr_link.resource_id = r.local_id JOIN academic_external_refs sr ON sr.local_id = sr_link.subject_id AND sr.kind = 'subject' AND sr.provider = r.provider WHERE r.provider = ?1 AND r.kind = 'material'"@,
        ),
        _ => None,
    }
}

/// The query that finds the external subject each reference of a kind
/// belongs to; semesters and subjects belong to none.
pub fn owner_query(kind: ExternalKind) -> (q: Option<&'static str>)
    ensures
        match q {
            Some(s) => spec_owner_query(kind) == Some(s@),
            None => spec_owner_query(kind) is None,
        },
{
    match kind {
        ExternalKind::Exam => Some(
            "SELECT r.external_id, sr.external_id FROM academic_external_refs r JOIN academic_exams e ON e.id = r.local_id JOIN academic_external_refs sr ON sr.local_id = e.subject_id AND sr.kind = 'subject' AND sr.provider = r.provider WHERE r.provider = ?1 AND r.kind = 'exam'",
        ),
        ExternalKind::Assignment => Some(
            "SELECT r.external_id, sr.external_id FROM academic_external_refs r JOIN academic_assignments a ON a.id = r.local_id JOIN academic_external_refs sr ON sr.local_id = a.subject_id AND sr.kind = 'subject' AND sr.provider = r.provider WHERE r.provider = ?1 AND r.kind = 'assignment'",
        ),
        ExternalKind::Material => Some(
            "SELECT r.external_id, sr.external_id FROM academic_external_refs r JOIN academic_subject_resources sr_link ON sr_link.resource_id = r.local_id JOIN academic_external_refs sr ON sr.local_id = sr_link.subject_id AND sr.kind = 'subject' AND sr.provider = r.provider WHERE r.provider = ?1 AND r.kind = 'material'",
        ),
        _ => None,
    }
}

/// To which external subject each reference of a kind belongs, as
/// (reference, subject) pairs; a later pair for the same reference wins. No
/// pair for semesters and subjects.
pub fn dono_por_referencia(connection: &rusqlite::Connection, provider: &str, kind: ExternalKind, trace: &mut Trace) -> (r:
    Result<Vec<(String, String)>, CoreError>)
    ensures
        outcome_well_formed(r),
        spec_owner_query(kind) is None ==> r is Ok && r->Ok_0@.len() == 0 && final(trace).events@ == old(
            trace,
        ).events@,
        spec_owner_query(kind) is Some && r is Ok ==> {
            &&& one_more(old(trace).events@, final(trace).events@)
            &&& final(trace).events@.last() matches Event::ReadRows(q, v, rows) && q == spec_owner_query(
                kind,
            )->Some_0 && sqlite::bound_texts(v, seq![provider@])
                && rows == r->Ok_0@.map_values(|p: (String, String)| sqlite::pair_cells(p))
        },
{
    let query = match owner_query(kind) {
        Some(q) => q,
        None => return Ok(Vec::new()),
    };
    let items = vec![provider];
    let values = sqlite::text_values(&items);
    let ghost base = trace.events@;
    let read = sqlite::query_text_pairs(connection, query, &values, trace);
    proof {
        assert(sqlite::str_views(items@) =~= seq![provider@]);
        if read is Ok {
            assert(trace.events@.drop_last() =~= base);
        }
    }
    sql(read)
}

pub const UPSERT_PROVIDER_STATE: &'static str = "INSERT INTO academic_provider_state (provider, connection, created_at, updated_at) VALUES (?1, ?2, ?3, ?3) ON CONFLICT(provider) DO UPDATE SET connection = excluded.connection, updated_at = excluded.updated_at";

pub const MATERIAL_URL: &'static str = "SELECT url FROM academic_material_urls WHERE provider = ?1 AND external_id = ?2";

pub const FORGET_REFS: &'static str = "DELETE FROM academic_external_refs WHERE provider = ?1";

pub const FORGET_URLS: &'static str = "DELETE FROM academic_material_urls WHERE provider = ?1";

pub const FORGET_FACTS: &'static str = "DELETE FROM academic_provider_subject_facts WHERE provider = ?1";

pub const FORGET_STATE: &'static str = "DELETE FROM academic_provider_state WHERE provider = ?1";

/// The upsert of a provider's state row with the given stored word.
pub open spec fn state_upserted(e: Event, provider: Seq<char>, word: Seq<char>) -> bool {
    match e {
        Event::Execute(q, v) => q == UPSERT_PROVIDER_STATE@ && v.len() == 3 && text_value(v[0], provider)
            && text_value(v[1], word) && v[2] is Text,
        _ => false,
    }
}

/// The read of a material's address, and its answer.
pub open spec fn url_read(e: Event, provider: Seq<char>, external_id: Seq<char>, answer: Option<Seq<char>>) -> bool {
    match e {
        Event::ReadOptionalText(q, v, a) => q == MATERIAL_URL@ && v.len() == 2 && text_value(v[0], provider)
            && text_value(v[1], external_id) && a == answer,
        _ => false,
    }
}

pub const PROVIDER_STATE: &'static str = "SELECT connection, course_name, last_sync_at, last_outcome FROM academic_provider_state WHERE provider = ?1";

pub const LIVE_COUNTS: &'static str = "SELECT kind, COUNT(*) FROM academic_external_refs WHERE provider = ?1 AND unavailable_since IS NULL GROUP BY kind ORDER BY kind";

impl SqliteStorage {
    /// The status of a provider as stored: its connection state, course,
    /// last synchronisation and outcome, and its live references per kind.
    /// The trace shows the read of its state row and of its live counts, and
    /// the status is what `status_read` says of them.
    pub fn provider_status(&self, provider: &str, trace: &mut Trace) -> (r: Result<ProviderStatus, CoreError>)
        ensures
            outcome_well_formed(r),
            r is Ok ==> r->Ok_0.provider@ == provider@,
            r is Ok ==> {
                let e = final(trace).events@;
                let b = old(trace).events@.len() as int;
                &&& gained(old(trace).events@, e, 2)
                &&& match (e[b], e[b + 1]) {
                    (Event::ReadRows(q1, v1, rows), Event::ReadCounts(q2, v2, counts)) => {
                        &&& q1 == PROVIDER_STATE@ && sqlite::bound_texts(v1, seq![provider@])
                        &&& q2 == LIVE_COUNTS@ && sqlite::bound_texts(v2, seq![provider@])
                        &&& status_read(r->Ok_0, provider@, rows, counts)
                    },
                    _ => false,
                }
            },
    {
        let ghost base = trace.events@;
        let read = read_provider_state(self.connection(), PROVIDER_STATE, provider, trace);
        let ghost t1 = trace.events@;
        let state = sql(read)?;
        let items = vec![provider];
        let values = sqlite::text_values(&items);
        let counted = sqlite::query_text_counts_traced(self.connection(), LIVE_COUNTS, &values, trace);
        let counts = sql(counted)?;
        let ghost read_state = state;
        let status = status_from_rows(provider, state, counts);
        proof {
            assert(sqlite::str_views(items@) =~= seq![provider@]);
            lemma_push(base, t1.last());
            assert(t1 =~= base.push(t1.last()));
            lemma_push(t1, trace.events@.last());
            lemma_extends_trans(trace.events@, t1, base);
            assert(trace.events@[base.len() as int] == t1.last());
            match read_state {
                Some(row) => {
                    assert(cell_text(state_cells(row)[2]) == optional_view(row.last_sync_at));
                    assert(cell_text(state_cells(row)[3]) == optional_view(row.last_outcome));
                },
                None => {},
            }
        }
        Ok(status)
    }

    /// Records the state of the connection to a provider: the trace shows
    /// the one upsert of its row, with the provider, the stored word of the
    /// state and the time.
    pub fn set_provider_connection(
        &self,
        provider: &str,
        connection_state: ProviderConnection,
        trace: &mut Trace,
    ) -> (r: Result<(), CoreError>)
        ensures
            outcome_well_formed(r),
            r is Ok ==> gained(old(trace).events@, final(trace).events@, 1) && state_upserted(
                final(trace).events@.last(),
                provider@,
                spec_estado_str(connection_state),
            ),
    {
        let agora = match clock::now_rfc3339() {
            Ok(now) => now,
            Err(detail) => return Err(format_error(detail.as_str())),
        };
        let ghost base = trace.events@;
        let mut values = Vec::new();
        values.push(SqlValue::Text(String::from_str(provider)));
        values.push(SqlValue::Text(String::from_str(estado_str(connection_state))));
        values.push(SqlValue::Text(agora));
        let done = run(self.connection(), UPSERT_PROVIDER_STATE, &values, trace);
        proof {
            lemma_push(base, Event::Execute(UPSERT_PROVIDER_STATE@, values@));
        }
        done?;
        Ok(())
    }

    /// The last address seen for a material, if any; it may be stale. The
    /// result is what the traced read answered.
    pub fn material_url(&self, provider: &str, external_id: &str, trace: &mut Trace) -> (r: Result<
        Option<String>,
        CoreError,
    >)
        ensures
            outcome_well_formed(r),
            r is Ok ==> gained(old(trace).events@, final(trace).events@, 1) && url_read(
                final(trace).events@.last(),
                provider@,
                external_id@,
                optional_view(r->Ok_0),
            ),
    {
        let ghost base = trace.events@;
        let mut values = Vec::new();
        values.push(SqlValue::Text(String::from_str(provider)));
        values.push(SqlValue::Text(String::from_str(external_id)));
        let found = sqlite::query_first_text_traced(self.connection(), MATERIAL_URL, &values, trace);
        proof {
            if found is Ok {
                lemma_push(base, Event::ReadOptionalText(MATERIAL_URL@, values@, optional_view(found->Ok_0)));
            }
        }
        sql(found)
    }

    /// Disconnects a provider in one transaction: its references, cached
    /// addresses, official facts and state go; the academic entities stay.
    /// On success the trace shows exactly those four deletions for the
    /// provider, then the commit; on failure nothing was committed.
    pub fn forget_provider(&self, provider: &str, trace: &mut Trace) -> (r: Result<(), CoreError>)
        ensures
            outcome_well_formed(r),
            extends(final(trace).events@, old(trace).events@),
            r is Ok ==> {
                let e = final(trace).events@;
                let b = old(trace).events@.len() as int;
                &&& gained(old(trace).events@, e, 5)
                &&& keyed_execute(e[b], FORGET_REFS@, provider@)
                &&& keyed_execute(e[b + 1], FORGET_URLS@, provider@)
                &&& keyed_execute(e[b + 2], FORGET_FACTS@, provider@)
                &&& keyed_execute(e[b + 3], FORGET_STATE@, provider@)
                &&& e[b + 4] is Commit
            },
            r is Err ==> commits(final(trace).events@) == commits(old(trace).events@),
    {
        let ghost base = trace.events@;
        proof {
            lemma_extends_refl(base);
        }
        let transaction = sql(sqlite::begin(self.connection()))?;
        let inside = sqlite::in_transaction(&transaction);
        let mut key = Vec::new();
        key.push(SqlValue::Text(String::from_str(provider)));
        let ghost t0 = trace.events@;
        let r0 = run(inside, FORGET_REFS, &key, trace);
        proof {
            lemma_step(base, t0, Event::Execute(FORGET_REFS@, key@));
        }
        r0?;
        let ghost t1 = trace.events@;
        let r1 = run(inside, FORGET_URLS, &key, trace);
        proof {
            lemma_step(base, t1, Event::Execute(FORGET_URLS@, key@));
        }
        r1?;
        let ghost t2 = trace.events@;
        let r2 = run(inside, FORGET_FACTS, &key, trace);
        proof {
            lemma_step(base, t2, Event::Execute(FORGET_FACTS@, key@));
        }
        r2?;
        let ghost t3 = trace.events@;
        let r3 = run(inside, FORGET_STATE, &key, trace);
        proof {
            lemma_step(base, t3, Event::Execute(FORGET_STATE@, key@));
        }
        r3?;
        let ghost t4 = trace.events@;
        let committed = finish(transaction, trace);
        proof {
            if committed is Ok {
                lemma_push(t4, Event::Commit);
                lemma_extends_trans(trace.events@, t4, base);
                assert(trace.events@ =~= base.push(Event::Execute(FORGET_REFS@, key@)).push(
                    Event::Execute(FORGET_URLS@, key@),
                ).push(Event::Execute(FORGET_FACTS@, key@)).push(Event::Execute(FORGET_STATE@, key@)).push(
                    Event::Commit,
                ));
            }
        }
        committed
    }
}

} // verus!
