//! The search index of the App Registry and the guard of its updates.

use vstd::prelude::*;
use crate::error::{CoreError, ErrorCode};
use crate::sqlite::{self, one_more, ran_with, Event, SqlValue, Trace};
use crate::storage::{outcome_well_formed, rebuild_projection, run, SqliteStorage};

verus! {

pub open spec fn app_not_found_message() -> Seq<char> {
    "App nao encontrado."@
}

/// An update that changed no row means the app does not exist.
pub fn ensure_app_changed(changed: usize) -> (r: Result<(), CoreError>)
    ensures
        r is Ok <==> changed != 0,
        r is Err ==> r->Err_0.code == ErrorCode::NotFound && r->Err_0.message@
            == app_not_found_message() && !r->Err_0.retryable,
{
    if changed == 0 {
        Err(CoreError::new(ErrorCode::NotFound, "App nao encontrado.", false))
    } else {
        Ok(())
    }
}

pub const INSERT_APP_SEARCH: &'static str = "INSERT INTO app_search (rowid, name, description, launch_target) SELECT rowid, name, description, launch_target FROM apps WHERE rowid = ?1";

pub const DELETE_APP_SEARCH: &'static str = "INSERT INTO app_search(app_search, rowid, name, description, launch_target) SELECT 'delete', rowid, name, description, launch_target FROM apps WHERE id = ?1";

/// Adds an app to the search index: the trace shows that one insertion,
/// keyed by the app's rowid.
pub fn insert_app_search(connection: &rusqlite::Connection, rowid: i64, trace: &mut Trace) -> (r: Result<(), CoreError>)
    ensures
        outcome_well_formed(r),
        one_more(old(trace).events@, final(trace).events@),
        final(trace).events@.last() == Event::Execute(INSERT_APP_SEARCH@, seq![SqlValue::Integer(rowid)]),
{
    let mut values = Vec::new();
    values.push(SqlValue::Integer(rowid));
    let ghost base = trace.events@;
    let done = run(connection, INSERT_APP_SEARCH, &values, trace);
    proof {
        assert(trace.events@.drop_last() =~= base);
        assert(values@ =~= seq![SqlValue::Integer(rowid)]);
    }
    done?;
    Ok(())
}

/// Takes an app out of the search index: the trace shows that one
/// statement, keyed by the app's id.
pub fn delete_app_search(connection: &rusqlite::Connection, id: &str, trace: &mut Trace) -> (r: Result<(), CoreError>)
    ensures
        outcome_well_formed(r),
        one_more(old(trace).events@, final(trace).events@),
        ran_with(final(trace).events@.last(), DELETE_APP_SEARCH@, seq![id@]),
{
    let items = vec![id];
    let values = sqlite::text_values(&items);
    let ghost base = trace.events@;
    let done = run(connection, DELETE_APP_SEARCH, &values, trace);
    proof {
        assert(trace.events@.drop_last() =~= base);
        assert(sqlite::str_views(items@) =~= seq![id@]);
    }
    done?;
    Ok(())
}

impl SqliteStorage {
    /// Rebuilds the app search index; returns how many rows it holds.
    pub fn rebuild_app_search(&self, trace: &mut Trace) -> (r: Result<usize, CoreError>)
        ensures
            outcome_well_formed(r),
            r is Ok ==> {
                let e = final(trace).events@;
                let b = old(trace).events@.len() as int;
                &&& e.len() == b + 3
                &&& e[b] == Event::Execute(crate::storage::rebuild_statement("app_search"@), Seq::empty())
                &&& e[b + 1] matches Event::ReadInteger(q, v, count) && q == crate::storage::count_statement(
                    "app_search"@,
                ) && r->Ok_0 == count as usize
                &&& e[b + 2] is Commit
            },
    {
        rebuild_projection(self.connection(), "app_search", trace)
    }
}

} // verus!
