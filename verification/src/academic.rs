//! The rules of the academic repositories that do not depend on the rows:
//! the column lists the queries read, how many columns a list declares, the
//! lifecycle filter, and the words stored for a provider's connection and
//! for the outcome of a synchronisation; and how many materials each
//! subject has.

use vstd::prelude::*;
use crate::academic_provider::{clamped_counts, spec_tracked_count};
use crate::error::CoreError;
use crate::sqlite::{self, Event, SqlValue, Trace};
use crate::storage::{outcome_well_formed, sql, SqliteStorage};

verus! {

pub const SEMESTER_COLUMNS: &'static str = "id, name, institution, starts_on, ends_on, lifecycle_state, created_at, updated_at";

pub const SUBJECT_COLUMNS: &'static str = "id, semester_id, name, code, teacher, accent, notes, lifecycle_state, created_at, updated_at";

pub const ASSIGNMENT_COLUMNS: &'static str = "id, subject_id, title, description, due_at, status, priority, weight, max_score, score, task_id, lifecycle_state, created_at, updated_at, decision, decided_at, planned_at, planned_minutes";

pub const EXAM_COLUMNS: &'static str = "id, subject_id, name, at, location, topics, weight, max_score, score, status, lifecycle_state, created_at, updated_at, decision, decided_at, planned_at, planned_minutes";

pub const STUDY_COLUMNS: &'static str = "id, subject_id, topic, notes, started_at, ended_at, seconds, created_at, updated_at";

/// How many commas a text holds.
pub open spec fn comma_count(s: Seq<char>) -> nat
    decreases s.len(),
{
    if s.len() == 0 {
        0
    } else {
        comma_count(s.drop_last()) + (if s.last() == ',' {
            1nat
        } else {
            0nat
        })
    }
}

/// How many columns a comma-separated list declares: the pieces
/// `split(',')` yields, one more than its commas.
pub fn colunas_de(lista: &str) -> (n: usize)
    requires
        lista@.len() < usize::MAX,
    ensures
        n as nat == comma_count(lista@) + 1,
{
    let len = lista.unicode_len();
    let mut commas: usize = 0;
    let mut i: usize = 0;
    while i < len
        invariant
            len == lista@.len(),
            len < usize::MAX,
            i <= len,
            commas <= i,
            commas as nat == comma_count(lista@.take(i as int)),
        decreases len - i,
    {
        assert(lista@.take(i + 1).drop_last() =~= lista@.take(i as int));
        if lista.get_char(i) == ',' {
            commas = commas + 1;
        }
        i = i + 1;
    }
    assert(lista@.take(len as int) =~= lista@);
    commas + 1
}

/// The SQL condition on `lifecycle_state` a listing uses: active rows only,
/// or active and archived ones.
pub open spec fn spec_lifecycle_filter(include_archived: bool) -> Seq<char> {
    if include_archived {
        "IN ('active', 'archived')"@
    } else {
        "= 'active'"@
    }
}

/// The condition on `lifecycle_state` for a listing.
pub fn lifecycle_filter(include_archived: bool) -> (s: &'static str)
    ensures
        s@ == spec_lifecycle_filter(include_archived),
{
    if include_archived {
        "IN ('active', 'archived')"
    } else {
        "= 'active'"
    }
}

/// The state of the connection to an academic provider.
#[derive(Clone, Copy, Debug, PartialEq, Eq, Structural)]
pub enum ProviderConnection {
    Disconnected,
    Connected,
    Expired,
}

/// How the last synchronisation with a provider ended.
#[derive(Clone, Copy, Debug, PartialEq, Eq, Structural)]
pub enum SyncOutcome {
    Completed,
    CompletedWithWarnings,
    RequiresAuthentication,
    Failed,
}

pub open spec fn spec_estado_str(estado: ProviderConnection) -> Seq<char> {
    match estado {
        ProviderConnection::Disconnected => "disconnected"@,
        ProviderConnection::Connected => "connected"@,
        ProviderConnection::Expired => "expired"@,
    }
}

/// The word stored for a provider's connection state.
pub fn estado_str(estado: ProviderConnection) -> (s: &'static str)
    ensures
        s@ == spec_estado_str(estado),
{
    match estado {
        ProviderConnection::Disconnected => "disconnected",
        ProviderConnection::Connected => "connected",
        ProviderConnection::Expired => "expired",
    }
}

pub open spec fn spec_resultado_str(resultado: SyncOutcome) -> Seq<char> {
    match resultado {
        SyncOutcome::Completed => "completed"@,
        SyncOutcome::CompletedWithWarnings => "completed_with_warnings"@,
        SyncOutcome::RequiresAuthentication => "requires_authentication"@,
        SyncOutcome::Failed => "failed"@,
    }
}

/// The word stored for the outcome of a synchronisation.
pub fn resultado_str(resultado: SyncOutcome) -> (s: &'static str)
    ensures
        s@ == spec_resultado_str(resultado),
{
    match resultado {
        SyncOutcome::Completed => "completed",
        SyncOutcome::CompletedWithWarnings => "completed_with_warnings",
        SyncOutcome::RequiresAuthentication => "requires_authentication",
        SyncOutcome::Failed => "failed",
    }
}

/// Distinct states are stored as distinct words, so what is stored reads back
/// as what was meant.
pub proof fn law_stored_words_are_distinct(a: ProviderConnection, b: ProviderConnection, x: SyncOutcome, y: SyncOutcome)
    ensures
        spec_estado_str(a) == spec_estado_str(b) ==> a == b,
        spec_resultado_str(x) == spec_resultado_str(y) ==> x == y,
{
    reveal_strlit("disconnected");
    reveal_strlit("connected");
    reveal_strlit("expired");
    reveal_strlit("completed");
    reveal_strlit("completed_with_warnings");
    reveal_strlit("requires_authentication");
    reveal_strlit("failed");
    if spec_estado_str(a) == spec_estado_str(b) && a != b {
        assert(spec_estado_str(a).len() != spec_estado_str(b).len() || spec_estado_str(a)[0]
            != spec_estado_str(b)[0]);
    }
    if spec_resultado_str(x) == spec_resultado_str(y) && x != y {
        assert(spec_resultado_str(x).len() != spec_resultado_str(y).len() || spec_resultado_str(x)[0]
            != spec_resultado_str(y)[0]);
    }
}

pub const MATERIAL_COUNTS: &'static str = "SELECT j.subject_id, count(*) FROM academic_subject_resources j JOIN resources r ON r.id = j.resource_id WHERE r.lifecycle_state = 'active' GROUP BY j.subject_id";

impl SqliteStorage {
    /// How many active materials each subject has, for the subjects that
    /// have any.
    pub fn material_counts(&self, trace: &mut Trace) -> (r: Result<Vec<(String, usize)>, CoreError>)
        ensures
            outcome_well_formed(r),
            r is Ok ==> {
                &&& sqlite::one_more(old(trace).events@, final(trace).events@)
                &&& final(trace).events@.last() matches Event::ReadCounts(q, v, rows) && q == MATERIAL_COUNTS@
                    && v.len() == 0 && rows.len() == r->Ok_0@.len() && forall|i: int|
                    0 <= i < rows.len() ==> (#[trigger] r->Ok_0@[i]).0@ == rows[i].0 && r->Ok_0@[i].1
                    == spec_tracked_count(rows[i].1) as usize
            },
    {
        let no_values: Vec<SqlValue> = Vec::new();
        let ghost base = trace.events@;
        let read = sqlite::query_text_counts_traced(self.connection(), MATERIAL_COUNTS, &no_values, trace);
        proof {
            if read is Ok {
                assert(trace.events@.drop_last() =~= base);
            }
        }
        let counts = sql(read)?;
        Ok(clamped_counts(counts))
    }
}

} // verus!
