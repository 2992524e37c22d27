//! The steps of the ingestion pipeline that guard its transitions: a step
//! runs only from the state it expects, an update that touched no row is a
//! missing ingestion, and the stored sizes become unsigned ones.

use vstd::prelude::*;
use crate::error::{CoreError, ErrorCode};
use crate::sqlite::{self, bound_texts, one_more, ran_with, Event, SqlValue, Trace};
use crate::storage::{outcome_well_formed, run, sql, SqliteStorage};
use crate::text;

verus! {

pub open spec fn not_found_message() -> Seq<char> {
    "Ingestao nao encontrada."@
}

pub open spec fn left_state_message(state: Seq<char>) -> Seq<char> {
    "Esta ingestao ja saiu do estado '"@ + state + "'."@
}

pub open spec fn str_views(allowed: Seq<&str>) -> Seq<Seq<char>> {
    allowed.map_values(|a: &str| a@)
}

/// Accepts a step only from one of the `allowed` states: a missing ingestion
/// is not found, and any other state is an invalid transition (so that a
/// repeated step does not run twice).
pub fn check_state(state: Option<String>, allowed: &Vec<&str>) -> (r: Result<(), CoreError>)
    ensures
        r is Ok <==> (state is Some && str_views(allowed@).contains(state->Some_0@)),
        state is None ==> r is Err && r->Err_0.code == ErrorCode::NotFound && r->Err_0.message@
            == not_found_message(),
        state is Some && r is Err ==> r->Err_0.code == ErrorCode::InvalidTransition
            && r->Err_0.message@ == left_state_message(state->Some_0@),
        r is Err ==> !r->Err_0.retryable,
{
    let ghost given = state;
    assert(given == state);
    let current = match state {
        Some(s) => s,
        None => return Err(CoreError::new(ErrorCode::NotFound, "Ingestao nao encontrada.", false)),
    };
    assert(given == Some(current));
    let ghost views = str_views(allowed@);
    let mut i: usize = 0;
    while i < allowed.len()
        invariant
            views == str_views(allowed@),
            views.len() == allowed@.len(),
            i <= allowed.len(),
            forall|k: int| 0 <= k < i ==> views[k] != current@,
            given == Some(current),
            given == state,
        decreases allowed.len() - i,
    {
        if text::same_text(allowed[i], current.as_str()) {
            assert(views[i as int] == current@);
            assert(views.contains(current@));
            return Ok(());
        }
        i = i + 1;
    }
    assert(!views.contains(current@));
    let mut message = String::from_str("Esta ingestao ja saiu do estado '");
    message.append(current.as_str());
    message.append("'.");
    Err(CoreError::with_message(ErrorCode::InvalidTransition, message, false))
}

pub const INGESTION_STATE: &'static str = "SELECT state FROM ingestions WHERE id = ?1";

/// Reads the state of an ingestion and accepts the step only from one of the
/// `allowed` states: the trace shows that one read, and the outcome is what
/// `check_state` says of its answer.
pub fn expect_state(connection: &rusqlite::Connection, id: &str, allowed: &Vec<&str>, trace: &mut Trace) -> (r:
    Result<(), CoreError>)
    ensures
        outcome_well_formed(r),
        final(trace).events@.len() <= old(trace).events@.len() + 1,
        final(trace).events@.len() == old(trace).events@.len() + 1 ==> {
            &&& final(trace).events@.drop_last() == old(trace).events@
            &&& final(trace).events@.last() matches Event::ReadOptionalText(q, v, state) && q
                == INGESTION_STATE@ && bound_texts(v, seq![id@])
                && (r is Ok <==> (state is Some && str_views(allowed@).contains(state->Some_0)))
                && (state is None ==> r is Err && r->Err_0.code == ErrorCode::NotFound)
                && (state is Some && r is Err ==> r->Err_0.code == ErrorCode::InvalidTransition
                && r->Err_0.message@ == left_state_message(state->Some_0))
        },
{
    let items = vec![id];
    let values = sqlite::text_values(&items);
    let ghost base = trace.events@;
    let read = sqlite::query_first_text_traced(connection, INGESTION_STATE, &values, trace);
    proof {
        assert(sqlite::str_views(items@) =~= seq![id@]);
        if read is Ok {
            assert(trace.events@.drop_last() =~= base);
        }
    }
    let state = sql(read)?;
    check_state(state, allowed)
}

/// An update that changed no row means the ingestion does not exist.
pub fn ensure_changed(changed: usize) -> (r: Result<(), CoreError>)
    ensures
        r is Ok <==> changed != 0,
        r is Err ==> r->Err_0.code == ErrorCode::NotFound && r->Err_0.message@
            == not_found_message() && !r->Err_0.retryable,
{
    if changed == 0 {
        Err(CoreError::new(ErrorCode::NotFound, "Ingestao nao encontrada.", false))
    } else {
        Ok(())
    }
}

pub const REBUILD_INGESTION_SEARCH: &'static str = "INSERT INTO ingestion_search(ingestion_search) VALUES('rebuild')";

pub const COUNT_INGESTION_SEARCH: &'static str = "SELECT count(*) FROM ingestion_search";

pub const DUPLICATE_OF: &'static str = "SELECT i.resource_id FROM ingestions i JOIN resources r ON r.id = i.resource_id WHERE i.sha256 = ?1 AND i.id <> ?2 AND r.lifecycle_state IN ('active', 'archived') ORDER BY i.created_at ASC LIMIT 1";

pub const ADDED_LINKS: &'static str = "SELECT added_project_link, added_workspace_link FROM ingestions WHERE id = ?1";

pub const HAS_PROJECT_LINK: &'static str = "SELECT EXISTS(SELECT 1 FROM resource_projects WHERE resource_id = ?1 AND project_id = ?2)";

pub const HAS_WORKSPACE_LINK: &'static str = "SELECT EXISTS(SELECT 1 FROM resource_workspaces WHERE resource_id = ?1 AND workspace_id = ?2)";

pub const MARK_CAPTURE_PROCESSED: &'static str = "UPDATE captures SET processing_state = 'processed', updated_at = ?2 WHERE id = (SELECT capture_id FROM ingestions WHERE id = ?1)";

pub const INSERT_INGESTION_SEARCH: &'static str = "INSERT INTO ingestion_search (rowid, original_name, extracted_text) SELECT rowid, original_name, extracted_text FROM ingestions WHERE rowid = ?1";

pub const DELETE_INGESTION_SEARCH: &'static str = "INSERT INTO ingestion_search(ingestion_search, rowid, original_name, extracted_text) SELECT 'delete', rowid, original_name, extracted_text FROM ingestions WHERE id = ?1";

/// Which relations this ingestion itself added to an existing resource: the
/// project link and the workspace link, each stored as `1` when added. The
/// trace shows the read, and each answer is whether its column read `1`.
pub fn added_links(connection: &rusqlite::Connection, id: &str, trace: &mut Trace) -> (r: Result<(bool, bool), CoreError>)
    ensures
        outcome_well_formed(r),
        r is Ok ==> {
            &&& one_more(old(trace).events@, final(trace).events@)
            &&& final(trace).events@.last() matches Event::ReadRows(q, v, rows) && q == ADDED_LINKS@
                && bound_texts(v, seq![id@]) && rows.len() == 1 && rows[0].len() == 2
                && (r->Ok_0.0 <==> rows[0][0] == SqlValue::Integer(1))
                && (r->Ok_0.1 <==> rows[0][1] == SqlValue::Integer(1))
        },
{
    let items = vec![id];
    let values = sqlite::text_values(&items);
    let ghost base = trace.events@;
    let read = sqlite::query_two_integers(connection, ADDED_LINKS, &values, trace);
    proof {
        assert(sqlite::str_views(items@) =~= seq![id@]);
        if read is Ok {
            assert(trace.events@.drop_last() =~= base);
        }
    }
    let (project, workspace) = sql(read)?;
    Ok((project == 1, workspace == 1))
}

/// Whether a linking table holds a pair: the trace shows the read, and the
/// answer is whether it was not zero.
fn link_exists(connection: &rusqlite::Connection, query: &str, resource: &str, other: &str, trace: &mut Trace) -> (r:
    Result<bool, CoreError>)
    ensures
        outcome_well_formed(r),
        r is Ok ==> {
            &&& one_more(old(trace).events@, final(trace).events@)
            &&& final(trace).events@.last() matches Event::ReadInteger(q, v, found) && q == query@
                && bound_texts(v, seq![resource@, other@]) && (r->Ok_0 <==> found != 0)
        },
{
    let items = vec![resource, other];
    let values = sqlite::text_values(&items);
    let ghost base = trace.events@;
    let read = sqlite::query_integer_with_traced(connection, query, &values, trace);
    proof {
        assert(sqlite::str_views(items@) =~= seq![resource@, other@]);
        if read is Ok {
            assert(trace.events@.drop_last() =~= base);
        }
    }
    let found = sql(read)?;
    Ok(found != 0)
}

/// Whether a resource is already linked to a project: the trace shows the
/// read, and the answer is whether it was not zero.
pub fn has_project_link(connection: &rusqlite::Connection, resource: &str, project: &str, trace: &mut Trace) -> (r:
    Result<bool, CoreError>)
    ensures
        outcome_well_formed(r),
        r is Ok ==> {
            &&& one_more(old(trace).events@, final(trace).events@)
            &&& final(trace).events@.last() matches Event::ReadInteger(q, v, found) && q == HAS_PROJECT_LINK@
                && bound_texts(v, seq![resource@, project@]) && (r->Ok_0 <==> found != 0)
        },
{
    link_exists(connection, HAS_PROJECT_LINK, resource, project, trace)
}

/// Whether a resource is already linked to a workspace: the trace shows the
/// read, and the answer is whether it was not zero.
pub fn has_workspace_link(connection: &rusqlite::Connection, resource: &str, workspace: &str, trace: &mut Trace) -> (r:
    Result<bool, CoreError>)
    ensures
        outcome_well_formed(r),
        r is Ok ==> {
            &&& one_more(old(trace).events@, final(trace).events@)
            &&& final(trace).events@.last() matches Event::ReadInteger(q, v, found) && q == HAS_WORKSPACE_LINK@
                && bound_texts(v, seq![resource@, workspace@]) && (r->Ok_0 <==> found != 0)
        },
{
    link_exists(connection, HAS_WORKSPACE_LINK, resource, workspace, trace)
}

/// Marks the capture of an ingestion as processed at `now`: the trace shows
/// that one update.
pub fn mark_capture_processed(connection: &rusqlite::Connection, id: &str, now: &str, trace: &mut Trace) -> (r: Result<
    (),
    CoreError,
>)
    ensures
        outcome_well_formed(r),
        one_more(old(trace).events@, final(trace).events@),
        ran_with(final(trace).events@.last(), MARK_CAPTURE_PROCESSED@, seq![id@, now@]),
{
    let items = vec![id, now];
    let values = sqlite::text_values(&items);
    let ghost base = trace.events@;
    let done = run(connection, MARK_CAPTURE_PROCESSED, &values, trace);
    proof {
        assert(trace.events@.drop_last() =~= base);
        assert(sqlite::str_views(items@) =~= seq![id@, now@]);
    }
    done?;
    Ok(())
}

/// Adds an ingestion to the search index: the trace shows that one
/// insertion, keyed by its rowid.
pub fn insert_ingestion_search(connection: &rusqlite::Connection, rowid: i64, trace: &mut Trace) -> (r: Result<
    (),
    CoreError,
>)
    ensures
        outcome_well_formed(r),
        one_more(old(trace).events@, final(trace).events@),
        final(trace).events@.last() == Event::Execute(INSERT_INGESTION_SEARCH@, seq![SqlValue::Integer(rowid)]),
{
    let mut values = Vec::new();
    values.push(SqlValue::Integer(rowid));
    let ghost base = trace.events@;
    let done = run(connection, INSERT_INGESTION_SEARCH, &values, trace);
    proof {
        assert(trace.events@.drop_last() =~= base);
        assert(values@ =~= seq![SqlValue::Integer(rowid)]);
    }
    done?;
    Ok(())
}

/// Takes an ingestion out of the search index: the trace shows that one
/// statement, keyed by its id.
pub fn delete_ingestion_search(connection: &rusqlite::Connection, id: &str, trace: &mut Trace) -> (r: Result<
    (),
    CoreError,
>)
    ensures
        outcome_well_formed(r),
        one_more(old(trace).events@, final(trace).events@),
        ran_with(final(trace).events@.last(), DELETE_INGESTION_SEARCH@, seq![id@]),
{
    let items = vec![id];
    let values = sqlite::text_values(&items);
    let ghost base = trace.events@;
    let done = run(connection, DELETE_INGESTION_SEARCH, &values, trace);
    proof {
        assert(trace.events@.drop_last() =~= base);
        assert(sqlite::str_views(items@) =~= seq![id@]);
    }
    done?;
    Ok(())
}

impl SqliteStorage {
    /// Rebuilds the ingestion search index; returns how many rows it holds.
    pub fn rebuild_ingestion_search(&self, trace: &mut Trace) -> (r: Result<usize, CoreError>)
        ensures
            outcome_well_formed(r),
            r is Ok ==> {
                let e = final(trace).events@;
                let b = old(trace).events@.len() as int;
                &&& e.len() == b + 2
                &&& e.subrange(0, b) == old(trace).events@
                &&& e[b] == Event::Execute(crate::storage::rebuild_statement("ingestion_search"@), Seq::empty())
                &&& e[b + 1] matches Event::ReadInteger(q, v, count) && q == crate::storage::count_statement(
                    "ingestion_search"@,
                ) && v.len() == 0 && r->Ok_0 == count as usize
            },
    {
        let ghost base = trace.events@;
        let no_values: Vec<SqlValue> = Vec::new();
        let done = run(self.connection(), REBUILD_INGESTION_SEARCH, &no_values, trace);
        proof {
            reveal_strlit("INSERT INTO ingestion_search(ingestion_search) VALUES('rebuild')");
            reveal_strlit("INSERT INTO ");
            reveal_strlit("(");
            reveal_strlit(") VALUES('rebuild')");
            reveal_strlit("ingestion_search");
            assert(REBUILD_INGESTION_SEARCH@ =~= crate::storage::rebuild_statement("ingestion_search"@));
            assert(no_values@ =~= Seq::<SqlValue>::empty());
        }
        done?;
        let ghost t1 = trace.events@;
        let read = sqlite::query_integer_traced(self.connection(), COUNT_INGESTION_SEARCH, trace);
        proof {
            reveal_strlit("SELECT count(*) FROM ingestion_search");
            reveal_strlit("SELECT count(*) FROM ");
            reveal_strlit("ingestion_search");
            assert(COUNT_INGESTION_SEARCH@ =~= crate::storage::count_statement("ingestion_search"@));
            if read is Ok {
                assert(trace.events@.subrange(0, base.len() as int) =~= base);
            }
        }
        let count = sql(read)?;
        Ok(count as usize)
    }

    /// The resource an earlier ingestion of the same content produced, if
    /// one still exists and is not in the trash: the oldest such ingestion
    /// other than `except` wins. Content without a hash has no duplicate.
    /// The trace shows the read and its answer, which is the result.
    pub fn duplicate_of(&self, sha256: &str, except: &str, trace: &mut Trace) -> (r: Result<Option<String>, CoreError>)
        ensures
            outcome_well_formed(r),
            sha256@.len() == 0 ==> r is Ok && r->Ok_0 is None && final(trace).events@ == old(trace).events@,
            sha256@.len() > 0 && r is Ok ==> {
                &&& one_more(old(trace).events@, final(trace).events@)
                &&& final(trace).events@.last() matches Event::ReadOptionalText(q, v, found) && q == DUPLICATE_OF@
                    && bound_texts(v, seq![sha256@, except@]) && found == sqlite::optional_view(r->Ok_0)
            },
    {
        if sha256.unicode_len() == 0 {
            return Ok(None);
        }
        let items = vec![sha256, except];
        let values = sqlite::text_values(&items);
        let ghost base = trace.events@;
        let read = sqlite::query_first_text_traced(self.connection(), DUPLICATE_OF, &values, trace);
        proof {
            assert(sqlite::str_views(items@) =~= seq![sha256@, except@]);
            if read is Ok {
                assert(trace.events@.drop_last() =~= base);
            }
        }
        sql(read)
    }
}

// ---------------------------------------------------------------------------
// Stored sizes
// ---------------------------------------------------------------------------

/// The pixel size of an image.
#[derive(Clone, Copy, Debug, PartialEq, Eq, Structural)]
pub struct ImageSize {
    pub width: u32,
    pub height: u32,
}

/// A stored count read as an unsigned one: negative values read as zero.
pub fn byte_size(stored: i64) -> (n: u64)
    ensures
        n as int == if stored < 0 {
            0
        } else {
            stored as int
        },
{
    if stored < 0 {
        0
    } else {
        stored as u64
    }
}

/// `max(0)` of a stored value, narrowed to 32 bits as `as u32` does.
pub open spec fn clamp_u32(stored: i64) -> u32 {
    (if stored < 0 {
        0
    } else {
        stored
    }) as u32
}

/// A stored 32-bit count: negative values read as zero, larger ones are
/// truncated to 32 bits.
pub fn count_u32(stored: i64) -> (n: u32)
    ensures
        n == clamp_u32(stored),
{
    let clamped: i64 = if stored < 0 {
        0
    } else {
        stored
    };
    clamped as u32
}

/// The page count of a document, when it was stored.
pub fn page_count(stored: Option<i64>) -> (n: Option<u32>)
    ensures
        n == match stored {
            Some(v) => Some(clamp_u32(v)),
            None => None::<u32>,
        },
{
    match stored {
        Some(v) => Some(count_u32(v)),
        None => None,
    }
}

/// The size of an image, known only when both of its sides were stored.
pub fn image_size(width: Option<i64>, height: Option<i64>) -> (s: Option<ImageSize>)
    ensures
        s == match (width, height) {
            (Some(w), Some(h)) => Some(ImageSize { width: clamp_u32(w), height: clamp_u32(h) }),
            _ => None::<ImageSize>,
        },
{
    match (width, height) {
        (Some(w), Some(h)) => Some(ImageSize { width: count_u32(w), height: count_u32(h) }),
        _ => None,
    }
}

} // verus!
