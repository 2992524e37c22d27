//! The bookkeeping of meetings: storing an analysis and numbering its items,
//! keeping the two search indexes of a meeting whole, trimming a transcript
//! to a window, deleting a meeting with everything its indexes hold of it,
//! bookmarks, and the counts of the recording guardian's events.

use vstd::prelude::*;
use crate::cronocad::{is_integer, is_optional_text, is_text};
use crate::error::{map_sql_error, CoreError, ErrorCode};
use crate::sqlite::{
    self, commits, executed, extends, integers_read, lemma_extends_refl, lemma_extends_trans, lemma_push,
    lemma_push_filters, lemma_step, Event, SqlValue, Trace,
};
use crate::storage::{finish, outcome_well_formed, run, sql, SqliteStorage};

verus! {

/// The sequence number the next item of a meeting receives: one past the
/// largest in use, `0` for the first.
pub fn next_insight_seq(connection: &rusqlite::Connection, meeting_key: &str, trace: &mut Trace) -> (r: Result<
    i64,
    CoreError,
>)
    ensures
        outcome_well_formed(r),
        r is Ok ==> {
            &&& sqlite::one_more(old(trace).events@, final(trace).events@)
            &&& final(trace).events@.last() matches Event::ReadInteger(q, v, next) && q == NEXT_INSIGHT_SEQ@
                && key_row(v, meeting_key@) && next == r->Ok_0
        },
{
    let values = key_values(meeting_key);
    let ghost base = trace.events@;
    let read = sqlite::query_integer_with_traced(connection, NEXT_INSIGHT_SEQ, &values, trace);
    proof {
        if read is Ok {
            assert(trace.events@.drop_last() =~= base);
        }
    }
    sql(read)
}


/// A row of one value: the key.
pub const SEGMENTS_OUTSIDE: &'static str = "SELECT id FROM meeting_segments WHERE meeting_id = ?1 AND (start_ms < ?2 OR start_ms >= ?3)";

pub const DELETE_SEGMENT_TEXT: &'static str = "DELETE FROM meeting_transcript_search WHERE rowid IN (SELECT rowid FROM meeting_transcript_index WHERE segment_id = ?1)";

pub const DELETE_SEGMENT_LINK: &'static str = "DELETE FROM meeting_transcript_index WHERE segment_id = ?1";

pub const DELETE_SEGMENT: &'static str = "DELETE FROM meeting_segments WHERE id = ?1";

/// The values a window of a meeting is read with.
pub open spec fn window_values(v: Seq<SqlValue>, key: Seq<char>, start_ms: i64, end_ms: i64) -> bool {
    v.len() == 3 && is_text(v[0], key) && v[1] == SqlValue::Integer(start_ms) && v[2] == SqlValue::Integer(end_ms)
}

/// From position `i` on, the three deletions of one segment (its text in the
/// transcript index, its link, itself), each keyed by its id.
pub open spec fn segment_removed(e: Seq<Event>, i: int, segment: Seq<SqlValue>) -> bool {
    segment.len() == 1 && match segment[0] {
        SqlValue::Text(id) => {
            &&& keyed_execute(e[i], DELETE_SEGMENT_TEXT@, id@)
            &&& keyed_execute(e[i + 1], DELETE_SEGMENT_LINK@, id@)
            &&& keyed_execute(e[i + 2], DELETE_SEGMENT@, id@)
        },
        _ => false,
    }
}

pub const CLEAR_MEETING_SEARCH: &'static str = "DELETE FROM meeting_search; DELETE FROM meeting_search_index; DELETE FROM meeting_transcript_search; DELETE FROM meeting_transcript_index;";

pub const MEETING_IDS: &'static str = "SELECT id FROM meetings";

/// From position `i` on, the new search entry of the meeting whose id is
/// the one value of `row`.
pub open spec fn reindexed(e: Seq<Event>, i: int, row: Seq<SqlValue>) -> bool {
    row.len() == 1 && match row[0] {
        SqlValue::Text(id) => meeting_indexed(e, i, id@),
        _ => false,
    }
}

pub const NEXT_INSIGHT_SEQ: &'static str = "SELECT COALESCE(MAX(seq), -1) + 1 FROM meeting_insights WHERE meeting_id = ?1";

pub const ADD_BOOKMARK: &'static str = "INSERT INTO meeting_bookmarks (id, meeting_id, at_ms, note, created_at) VALUES (?1, ?2, ?3, ?4, ?5)";

pub const BOOKMARKS_OF: &'static str = "SELECT id, meeting_id, at_ms, note, created_at FROM meeting_bookmarks WHERE meeting_id = ?1 ORDER BY at_ms";

pub const SET_INSIGHT_DUE: &'static str = "UPDATE meeting_insights SET due_at = ?2, due_confidence = ?3 WHERE id = ?1";

pub const GUARDIAN_COUNTS: &'static str = "SELECT kind, count(*) FROM meeting_guardian_events GROUP BY kind ORDER BY kind";

pub const DELETE_BOOKMARK: &'static str = "DELETE FROM meeting_bookmarks WHERE id = ?1";

pub const AUDIO_DIRECTORY: &'static str = "SELECT audio_dir FROM meetings WHERE id = ?1";

pub const DELETE_MEETING_SEARCH: &'static str = "DELETE FROM meeting_search WHERE rowid IN (SELECT rowid FROM meeting_search_index WHERE meeting_id = ?1)";

pub const DELETE_TRANSCRIPT_SEARCH: &'static str = "DELETE FROM meeting_transcript_search WHERE rowid IN (SELECT rowid FROM meeting_transcript_index WHERE meeting_id = ?1)";

pub const DELETE_SEARCH_LINKS: &'static str = "DELETE FROM meeting_search_index WHERE meeting_id = ?1";

pub const DELETE_TRANSCRIPT_LINKS: &'static str = "DELETE FROM meeting_transcript_index WHERE meeting_id = ?1";

pub const DELETE_MEETING: &'static str = "DELETE FROM meetings WHERE id = ?1";

/// An execution of `sql` with the key as its only value.
pub open spec fn keyed_execute(e: Event, sql: Seq<char>, key: Seq<char>) -> bool {
    e matches Event::Execute(q, v) && q == sql && key_row(v, key)
}

pub open spec fn key_row(values: Seq<SqlValue>, key: Seq<char>) -> bool {
    values.len() == 1 && is_text(values[0], key)
}

fn key_values(key: &str) -> (values: Vec<SqlValue>)
    ensures
        key_row(values@, key@),
{
    let mut values = Vec::new();
    values.push(SqlValue::Text(String::from_str(key)));
    values
}

pub const MEETING_TITLE: &'static str = "SELECT title FROM meetings WHERE id = ?1";

pub const MEETING_SUMMARY: &'static str = "SELECT COALESCE((SELECT summary FROM meeting_analyses WHERE meeting_id = ?1), '')";

pub const MEETING_ITEMS_TEXT: &'static str = "SELECT COALESCE(group_concat(text, ' '), '') FROM meeting_insights WHERE meeting_id = ?1";

pub const INSERT_MEETING_SEARCH: &'static str = "INSERT INTO meeting_search (title, summary, insights) VALUES (?1, ?2, ?3)";

pub const LINK_MEETING_SEARCH: &'static str = "INSERT INTO meeting_search_index (rowid, meeting_id) VALUES (?1, ?2)";

/// What indexing a meeting shows in the trace from position `b` on: the
/// deletion of its entry and of its link, the reads of its title, summary and
/// items' text, the new entry holding exactly those three texts, and the
/// link of that entry to the meeting.
pub open spec fn meeting_indexed(e: Seq<Event>, b: int, key: Seq<char>) -> bool {
    &&& e.len() >= b + 7
    &&& keyed_execute(e[b], DELETE_MEETING_SEARCH@, key)
    &&& keyed_execute(e[b + 1], DELETE_SEARCH_LINKS@, key)
    &&& match (e[b + 2], e[b + 3], e[b + 4], e[b + 5]) {
        (
            Event::ReadOptionalText(q1, v1, Some(title)),
            Event::ReadOptionalText(q2, v2, Some(summary)),
            Event::ReadOptionalText(q3, v3, Some(items)),
            Event::Execute(q4, v4),
        ) => {
            &&& q1 == MEETING_TITLE@ && key_row(v1, key)
            &&& q2 == MEETING_SUMMARY@ && key_row(v2, key)
            &&& q3 == MEETING_ITEMS_TEXT@ && key_row(v3, key)
            &&& q4 == INSERT_MEETING_SEARCH@ && v4.len() == 3 && is_text(v4[0], title) && is_text(
                v4[1],
                summary,
            ) && is_text(v4[2], items)
        },
        _ => false,
    }
    &&& e[b + 6] matches Event::Execute(q, v) && q == LINK_MEETING_SEARCH@ && v.len() == 2
        && v[0] is Integer && is_text(v[1], key)
}

/// The statements indexing a meeting executes.
pub open spec fn indexing_statement(q: Seq<char>) -> bool {
    q == DELETE_MEETING_SEARCH@ || q == DELETE_SEARCH_LINKS@ || q == INSERT_MEETING_SEARCH@ || q
        == LINK_MEETING_SEARCH@
}

/// Writes a meeting's entry in the meeting search index afresh: its title,
/// the summary of its analysis (empty without one) and the text of its
/// items, joined by spaces. On success the trace shows what
/// `meeting_indexed` describes; whatever happens, no other statement, no
/// integer read and no commit is added.
pub fn index_meeting(connection: &rusqlite::Connection, meeting_key: &str, trace: &mut Trace) -> (r: Result<
    (),
    CoreError,
>)
    ensures
        outcome_well_formed(r),
        extends(final(trace).events@, old(trace).events@),
        commits(final(trace).events@) == commits(old(trace).events@),
        forall|q: Seq<char>|
            !indexing_statement(q) ==> #[trigger] executed(final(trace).events@, q) == executed(
                old(trace).events@,
                q,
            ),
        forall|q: Seq<char>| #[trigger] integers_read(final(trace).events@, q) == integers_read(old(trace).events@, q),
        r is Ok ==> final(trace).events@.len() == old(trace).events@.len() + 7 && meeting_indexed(
            final(trace).events@,
            old(trace).events@.len() as int,
            meeting_key@,
        ),
{
    let ghost base = trace.events@;
    proof {
        lemma_extends_refl(base);
    }
    let values = key_values(meeting_key);
    let ghost t0 = trace.events@;
    let d1 = run(connection, DELETE_MEETING_SEARCH, &values, trace);
    proof {
        lemma_one_step(t0, Event::Execute(DELETE_MEETING_SEARCH@, values@));
        lemma_steps_chain(base, t0, trace.events@);
    }
    d1?;
    let ghost t1 = trace.events@;
    let d2 = run(connection, DELETE_SEARCH_LINKS, &values, trace);
    proof {
        lemma_one_step(t1, Event::Execute(DELETE_SEARCH_LINKS@, values@));
        lemma_steps_chain(base, t1, trace.events@);
    }
    d2?;
    let ghost t2 = trace.events@;
    let r1 = sqlite::query_text_with(connection, MEETING_TITLE, &values, trace);
    proof {
        if r1 is Ok {
            lemma_one_step(t2, Event::ReadOptionalText(MEETING_TITLE@, values@, Some(r1->Ok_0@)));
            lemma_steps_chain(base, t2, trace.events@);
        }
    }
    let title = sql(r1)?;
    let ghost t3 = trace.events@;
    let r2 = sqlite::query_text_with(connection, MEETING_SUMMARY, &values, trace);
    proof {
        if r2 is Ok {
            lemma_one_step(t3, Event::ReadOptionalText(MEETING_SUMMARY@, values@, Some(r2->Ok_0@)));
            lemma_steps_chain(base, t3, trace.events@);
        }
    }
    let summary = sql(r2)?;
    let ghost t4 = trace.events@;
    let r3 = sqlite::query_text_with(connection, MEETING_ITEMS_TEXT, &values, trace);
    proof {
        if r3 is Ok {
            lemma_one_step(t4, Event::ReadOptionalText(MEETING_ITEMS_TEXT@, values@, Some(r3->Ok_0@)));
            lemma_steps_chain(base, t4, trace.events@);
        }
    }
    let insights = sql(r3)?;
    let ghost t5 = trace.events@;
    let mut row = Vec::new();
    row.push(SqlValue::Text(title));
    row.push(SqlValue::Text(summary));
    row.push(SqlValue::Text(insights));
    let d3 = run(connection, INSERT_MEETING_SEARCH, &row, trace);
    proof {
        lemma_one_step(t5, Event::Execute(INSERT_MEETING_SEARCH@, row@));
        lemma_steps_chain(base, t5, trace.events@);
    }
    d3?;
    let ghost t6 = trace.events@;
    let rowid = sqlite::last_insert_rowid(connection);
    let mut link = Vec::new();
    link.push(SqlValue::Integer(rowid));
    link.push(SqlValue::Text(String::from_str(meeting_key)));
    let d4 = run(connection, LINK_MEETING_SEARCH, &link, trace);
    proof {
        lemma_one_step(t6, Event::Execute(LINK_MEETING_SEARCH@, link@));
        lemma_steps_chain(base, t6, trace.events@);
    }
    d4?;
    proof {
        let e = trace.events@;
        let b = base.len() as int;
        assert(e =~= base.push(Event::Execute(DELETE_MEETING_SEARCH@, values@)).push(
            Event::Execute(DELETE_SEARCH_LINKS@, values@),
        ).push(t3.last()).push(t4.last()).push(t5.last()).push(Event::Execute(INSERT_MEETING_SEARCH@, row@)).push(
            Event::Execute(LINK_MEETING_SEARCH@, link@),
        ));
    }
    Ok(())
}

/// A step of indexing that adds one event to the trace, not a commit.
pub open spec fn one_step(before: Seq<Event>, after: Seq<Event>) -> bool {
    &&& extends(after, before)
    &&& after.len() <= before.len() + 1
    &&& commits(after) == commits(before)
    &&& forall|q: Seq<char>|
        !indexing_statement(q) ==> #[trigger] executed(after, q) == executed(before, q)
    &&& forall|q: Seq<char>| #[trigger] integers_read(after, q) == integers_read(before, q)
}

proof fn lemma_one_step(before: Seq<Event>, e: Event)
    requires
        !(e is Commit),
        !(e is ReadInteger),
        e is Execute ==> indexing_statement(e->Execute_0),
    ensures
        one_step(before, before.push(e)),
{
    lemma_push(before, e);
    lemma_push_filters(before, e);
    assert forall|q: Seq<char>| !indexing_statement(q) implies #[trigger] executed(before.push(e), q) == executed(before, q) by {
        assert(executed(before, q) + Seq::<Seq<SqlValue>>::empty() =~= executed(before, q));
    }
    assert forall|q: Seq<char>| #[trigger] integers_read(before.push(e), q) == integers_read(before, q) by {
        assert(integers_read(before, q) + Seq::<(Seq<SqlValue>, i64)>::empty() =~= integers_read(before, q));
    }
}

proof fn lemma_steps_chain(a: Seq<Event>, b: Seq<Event>, c: Seq<Event>)
    requires
        extends(b, a),
        commits(b) == commits(a),
        forall|q: Seq<char>| !indexing_statement(q) ==> #[trigger] executed(b, q) == executed(a, q),
        forall|q: Seq<char>| #[trigger] integers_read(b, q) == integers_read(a, q),
        one_step(b, c),
    ensures
        extends(c, a),
        commits(c) == commits(a),
        forall|q: Seq<char>| !indexing_statement(q) ==> #[trigger] executed(c, q) == executed(a, q),
        forall|q: Seq<char>| #[trigger] integers_read(c, q) == integers_read(a, q),
{
    lemma_extends_trans(c, b, a);
}

/// Adds the segments of a meeting, in order, to the transcript search index.
fn index_transcript(connection: &rusqlite::Connection, meeting_key: &str) -> (r: Result<
    (),
    CoreError,
>)
    ensures
        outcome_well_formed(r),
{
    let values = key_values(meeting_key);
    let mut reads = Trace::new();
    let segments = sql(
        sqlite::query_text_pairs(
            connection,
            "SELECT id, text FROM meeting_segments WHERE meeting_id = ?1 ORDER BY seq",
            &values,
            &mut reads,
        ),
    )?;
    let mut i: usize = 0;
    while i < segments.len()
        invariant
            i <= segments@.len(),
        decreases segments@.len() - i,
    {
        let mut text = Vec::new();
        text.push(SqlValue::Text(segments[i].1.clone()));
        sql(
            sqlite::execute(
                connection,
                "INSERT INTO meeting_transcript_search (text) VALUES (?1)",
                &text,
            ),
        )?;
        let rowid = sqlite::last_insert_rowid(connection);
        let mut link = Vec::new();
        link.push(SqlValue::Integer(rowid));
        link.push(SqlValue::Text(String::from_str(meeting_key)));
        link.push(SqlValue::Text(segments[i].0.clone()));
        sql(
            sqlite::execute(
                connection,
                "INSERT INTO meeting_transcript_index (rowid, meeting_id, segment_id) VALUES (?1, ?2, ?3)",
                &link,
            ),
        )?;
        i = i + 1;
    }
    Ok(())
}

pub open spec fn meeting_gone_message() -> Seq<char> {
    "Esta reuniao nao existe mais."@
}

/// Where the audio of a meeting lies, from what the lookup of the meeting
/// found: a meeting that is not there any more is `NotFound`.
pub fn audio_directory_of(found: Option<String>) -> (r: Result<String, CoreError>)
    ensures
        found is Some <==> r is Ok,
        found is Some ==> r->Ok_0@ == found->Some_0@,
        found is None ==> r->Err_0.code == ErrorCode::NotFound && r->Err_0.message@
            == meeting_gone_message() && !r->Err_0.retryable,
        outcome_well_formed(r),
{
    match found {
        Some(directory) => Ok(directory),
        None => Err(CoreError::new(ErrorCode::NotFound, "Esta reuniao nao existe mais.", false)),
    }
}

impl SqliteStorage {
    /// Deletes a meeting in one transaction: first its text in both search
    /// indexes, then the links to them, then the meeting itself (its segments,
    /// analysis and items go with it). Returns the directory that held its
    /// audio, read before anything is deleted, so the caller can remove the
    /// files; a meeting that is not there is `NotFound`, and then nothing is
    /// deleted. On success the trace shows the read of the directory, the
    /// five deletions keyed by the meeting, in that order, and the commit; on
    /// failure nothing was committed.
    pub fn delete_meeting(&self, meeting_key: &str, trace: &mut Trace) -> (r: Result<String, CoreError>)
        ensures
            outcome_well_formed(r),
            extends(final(trace).events@, old(trace).events@),
            r is Ok ==> {
                let e = final(trace).events@;
                let b = old(trace).events@.len() as int;
                &&& e.len() == b + 7
                &&& e[b] matches Event::ReadOptionalText(q, v, Some(found)) && q == AUDIO_DIRECTORY@
                    && key_row(v, meeting_key@) && found == r->Ok_0@
                &&& keyed_execute(e[b + 1], DELETE_MEETING_SEARCH@, meeting_key@)
                &&& keyed_execute(e[b + 2], DELETE_TRANSCRIPT_SEARCH@, meeting_key@)
                &&& keyed_execute(e[b + 3], DELETE_SEARCH_LINKS@, meeting_key@)
                &&& keyed_execute(e[b + 4], DELETE_TRANSCRIPT_LINKS@, meeting_key@)
                &&& keyed_execute(e[b + 5], DELETE_MEETING@, meeting_key@)
                &&& e[b + 6] is Commit
            },
            ({
                let e = final(trace).events@;
                let b = old(trace).events@.len() as int;
                &&& e.len() > b
                &&& e[b] matches Event::ReadOptionalText(q, v, None) && q == AUDIO_DIRECTORY@
            }) ==> r is Err && r->Err_0.code == ErrorCode::NotFound && final(trace).events@.len()
                == old(trace).events@.len() + 1,
            r is Err ==> commits(final(trace).events@) == commits(old(trace).events@),
    {
        let ghost base = trace.events@;
        proof {
            lemma_extends_refl(base);
        }
        let transaction = sql(sqlite::begin(self.connection()))?;
        let inside = sqlite::in_transaction(&transaction);
        let values = key_values(meeting_key);
        let found = sqlite::query_first_text_traced(inside, AUDIO_DIRECTORY, &values, trace);
        proof {
            if found is Ok {
                lemma_step(base, base, Event::ReadOptionalText(AUDIO_DIRECTORY@, values@, sqlite::optional_view(found->Ok_0)));
            }
        }
        let found = sql(found)?;
        let audio_directory = audio_directory_of(found)?;
        let ghost t0 = trace.events@;
        let d1 = run(inside, DELETE_MEETING_SEARCH, &values, trace);
        proof { lemma_step(base, t0, Event::Execute(DELETE_MEETING_SEARCH@, values@)); }
        d1?;
        let ghost t1 = trace.events@;
        let d2 = run(inside, DELETE_TRANSCRIPT_SEARCH, &values, trace);
        proof { lemma_step(base, t1, Event::Execute(DELETE_TRANSCRIPT_SEARCH@, values@)); }
        d2?;
        let ghost t2 = trace.events@;
        let d3 = run(inside, DELETE_SEARCH_LINKS, &values, trace);
        proof { lemma_step(base, t2, Event::Execute(DELETE_SEARCH_LINKS@, values@)); }
        d3?;
        let ghost t3 = trace.events@;
        let d4 = run(inside, DELETE_TRANSCRIPT_LINKS, &values, trace);
        proof { lemma_step(base, t3, Event::Execute(DELETE_TRANSCRIPT_LINKS@, values@)); }
        d4?;
        let ghost t4 = trace.events@;
        let d5 = run(inside, DELETE_MEETING, &values, trace);
        proof { lemma_step(base, t4, Event::Execute(DELETE_MEETING@, values@)); }
        d5?;
        let ghost t5 = trace.events@;
        let committed = finish(transaction, trace);
        proof {
            if committed is Ok {
                lemma_push(t5, Event::Commit);
                lemma_extends_trans(trace.events@, t5, base);
                assert(trace.events@ =~= base.push(t0.last()).push(Event::Execute(DELETE_MEETING_SEARCH@, values@)).push(
                    Event::Execute(DELETE_TRANSCRIPT_SEARCH@, values@),
                ).push(Event::Execute(DELETE_SEARCH_LINKS@, values@)).push(
                    Event::Execute(DELETE_TRANSCRIPT_LINKS@, values@),
                ).push(Event::Execute(DELETE_MEETING@, values@)).push(Event::Commit));
            }
        }
        committed?;
        Ok(audio_directory)
    }

    /// Rebuilds both meeting search indexes from the meetings and their
    /// segments, in one transaction; returns how many meetings were indexed.
    /// On success the trace shows the clearing of both indexes, the meetings
    /// read, each one's new search entry (`meeting_indexed`), in order, and
    /// the commit; on failure nothing was committed.
    pub fn rebuild_meeting_search(&self, trace: &mut Trace) -> (r: Result<usize, CoreError>)
        ensures
            outcome_well_formed(r),
            extends(final(trace).events@, old(trace).events@),
            r is Err ==> commits(final(trace).events@) == commits(old(trace).events@),
            r is Ok ==> {
                let e = final(trace).events@;
                let b = old(trace).events@.len() as int;
                let n = r->Ok_0 as int;
                &&& e.len() == b + 3 + 7 * n
                &&& e[b] == Event::Batch(CLEAR_MEETING_SEARCH@)
                &&& e[b + 1] matches Event::ReadRows(q, v, rows) && q == MEETING_IDS@ && v.len() == 0
                    && rows.len() == n && forall|i: int|
                    0 <= i < n ==> reindexed(e, b + 2 + 7 * i, #[trigger] rows[i])
                &&& e[b + 2 + 7 * n] is Commit
            },
    {
        let ghost base = trace.events@;
        let ghost b = base.len() as int;
        proof {
            lemma_extends_refl(base);
        }
        let transaction = sql(sqlite::begin(self.connection()))?;
        let inside = sqlite::in_transaction(&transaction);
        let cleared = sqlite::execute_batch_traced(inside, CLEAR_MEETING_SEARCH, trace);
        proof {
            lemma_step(base, base, Event::Batch(CLEAR_MEETING_SEARCH@));
        }
        sql(cleared)?;
        let ghost t0 = trace.events@;
        let no_values: Vec<SqlValue> = Vec::new();
        let read = sqlite::query_texts(inside, MEETING_IDS, &no_values, trace);
        proof {
            if read is Ok {
                lemma_step(base, t0, trace.events@.last());
                assert(trace.events@ =~= t0.push(trace.events@.last()));
            }
        }
        let ids = sql(read)?;
        let ghost rows = ids@.map_values(|t: String| sqlite::text_cells(t));
        let ghost t1 = trace.events@;
        proof {
            lemma_extends_refl(t1);
        }
        let mut rebuilt: usize = 0;
        while rebuilt < ids.len()
            invariant
                rebuilt <= ids@.len(),
                b == base.len(),
                base == old(trace).events@,
                rows == ids@.map_values(|t: String| sqlite::text_cells(t)),
                t1.len() == b + 2,
                extends(t1, base),
                extends(trace.events@, t1),
                extends(trace.events@, base),
                trace.events@.len() == b + 2 + 7 * rebuilt,
                commits(trace.events@) == commits(base),
                forall|k: int| 0 <= k < rebuilt ==> reindexed(trace.events@, b + 2 + 7 * k, #[trigger] rows[k]),
            decreases ids@.len() - rebuilt,
        {
            let ghost before = trace.events@;
            let indexed = index_meeting(inside, ids[rebuilt].as_str(), trace);
            proof {
                lemma_extends_trans(trace.events@, before, base);
                lemma_extends_trans(trace.events@, before, t1);
                if indexed is Ok {
                    let e = trace.events@;
                    assert(rows[rebuilt as int] == sqlite::text_cells(ids@[rebuilt as int]));
                    assert forall|k: int| 0 <= k < rebuilt + 1 implies reindexed(e, b + 2 + 7 * k, #[trigger] rows[k]) by {
                        if k < rebuilt {
                            assert(reindexed(before, b + 2 + 7 * k, rows[k]));
                            assert forall|j: int| b + 2 + 7 * k <= j < b + 9 + 7 * k implies e[j] == before[j] by {
                                crate::sqlite::lemma_kept_at(e, before, j);
                            }
                        }
                    }
                }
            }
            indexed?;
            index_transcript(inside, ids[rebuilt].as_str())?;
            rebuilt = rebuilt + 1;
        }
        let ghost t2 = trace.events@;
        let committed = finish(transaction, trace);
        proof {
            if committed is Ok {
                lemma_push(t2, Event::Commit);
                lemma_extends_trans(trace.events@, t2, base);
                crate::sqlite::lemma_kept_at(t2, t1, b);
                crate::sqlite::lemma_kept_at(t2, t1, b + 1);
                assert forall|k: int| 0 <= k < ids@.len() implies reindexed(trace.events@, b + 2 + 7 * k, #[trigger] rows[k]) by {
                    assert(reindexed(t2, b + 2 + 7 * k, rows[k]));
                    assert forall|j: int| b + 2 + 7 * k <= j < b + 9 + 7 * k implies trace.events@[j] == t2[j] by {}
                }
            }
        }
        committed?;
        Ok(rebuilt)
    }

    /// Deletes a bookmark of a meeting; deleting one that is not there is no
    /// error. The trace shows that one deletion, keyed by the bookmark.
    pub fn delete_meeting_bookmark(&self, bookmark_key: &str, trace: &mut Trace) -> (r: Result<(), CoreError>)
        ensures
            outcome_well_formed(r),
            sqlite::one_more(old(trace).events@, final(trace).events@),
            keyed_execute(final(trace).events@.last(), DELETE_BOOKMARK@, bookmark_key@),
    {
        let values = key_values(bookmark_key);
        let ghost base = trace.events@;
        let done = run(self.connection(), DELETE_BOOKMARK, &values, trace);
        proof {
            assert(trace.events@.drop_last() =~= base);
        }
        done?;
        Ok(())
    }

    /// How many events of each kind the recording guardian recorded, ordered
    /// by kind: the rows the trace shows read.
    pub fn guardian_event_counts(&self, trace: &mut Trace) -> (r: Result<Vec<(String, i64)>, CoreError>)
        ensures
            outcome_well_formed(r),
            r is Ok ==> final(trace).events@ == old(trace).events@.push(
                Event::ReadCounts(GUARDIAN_COUNTS@, Seq::empty(), sqlite::pairs_view(r->Ok_0@)),
            ),
    {
        let no_values: Vec<SqlValue> = Vec::new();
        let read = sqlite::query_text_counts_traced(self.connection(), GUARDIAN_COUNTS, &no_values, trace);
        proof {
            assert(no_values@ =~= Seq::<SqlValue>::empty());
        }
        sql(read)
    }
}


// ---------------------------------------------------------------------------
// The analysis of a meeting
// ---------------------------------------------------------------------------

/// The analysis of a meeting as it is stored; `produced_at` is already in the
/// stored time format.
pub struct AnalysisRecord {
    pub meeting_id: String,
    pub summary: String,
    pub model: String,
    pub produced_at: String,
    pub windows: i64,
}

/// The stretch of a transcript segment an item cites.
pub struct EvidenceRecord {
    pub segment_id: String,
    pub seq: i64,
    pub char_start: Option<i64>,
    pub char_end: Option<i64>,
}

/// An item of a meeting's analysis as it is stored: its kind, confidence,
/// status and origin by their stored words, and its due date, if any, in the
/// stored time format.
pub struct InsightRecord {
    pub id: String,
    pub kind: String,
    pub text: String,
    pub owner: Option<String>,
    pub due_hint: Option<String>,
    pub confidence: String,
    pub status: String,
    pub origin: String,
    pub due_at: Option<String>,
    pub due_confidence: Option<String>,
    pub evidence: Vec<EvidenceRecord>,
}

/// Each evidence of the given items, with the id of the item it supports,
/// in order.
pub open spec fn cited(insights: Seq<InsightRecord>) -> Seq<(Seq<char>, EvidenceRecord)>
    decreases insights.len(),
{
    if insights.len() == 0 {
        Seq::empty()
    } else {
        cited(insights.drop_last()) + insights.last().evidence@.map_values(
            |e: EvidenceRecord| (insights.last().id@, e),
        )
    }
}

pub open spec fn is_optional_integer(v: SqlValue, o: Option<i64>) -> bool {
    match o {
        Some(number) => is_integer(v, number),
        None => v is Null,
    }
}

/// The values an evidence of an item is stored with.
pub open spec fn evidence_row(v: Seq<SqlValue>, insight_id: Seq<char>, e: EvidenceRecord) -> bool {
    &&& v.len() == 5
    &&& is_text(v[0], insight_id)
    &&& is_text(v[1], e.segment_id@)
    &&& is_integer(v[2], e.seq)
    &&& is_optional_integer(v[3], e.char_start)
    &&& is_optional_integer(v[4], e.char_end)
}

fn optional_text(value: &Option<String>) -> (v: SqlValue)
    ensures
        is_optional_text(v, *value),
{
    match value {
        Some(text) => SqlValue::Text(text.clone()),
        None => SqlValue::Null,
    }
}

fn optional_integer(value: Option<i64>) -> (v: SqlValue)
    ensures
        match value {
            Some(number) => is_integer(v, number),
            None => v is Null,
        },
{
    match value {
        Some(number) => SqlValue::Integer(number),
        None => SqlValue::Null,
    }
}

/// The number of the item at `offset` among those an analysis writes, when
/// the largest number kept is `kept` (`-1` when none is): numbering goes on
/// one by one after it. `None` when the number does not fit in an `i64`.
pub fn insight_seq(kept: i64, offset: usize) -> (seq: Option<i64>)
    ensures
        kept + 1 + offset <= i64::MAX ==> seq == Some((kept + 1 + offset) as i64),
        kept + 1 + offset > i64::MAX ==> seq is None,
{
    let seq: i128 = kept as i128 + 1 + offset as i128;
    if seq > 0x7fff_ffff_ffff_ffffi128 {
        None
    } else {
        Some(seq as i64)
    }
}

pub open spec fn uncited_segment_message() -> Seq<char> {
    "A analise citou um trecho que nao existe nesta transcricao."@
}

/// The error for an evidence row the database refused: a refused constraint
/// can only mean the analysis cited a segment that is not in this
/// transcript; anything else is the storage's own error.
pub fn evidence_error(constraint_violated: bool, storage_error: CoreError) -> (e: CoreError)
    ensures
        constraint_violated ==> e.code == ErrorCode::DataIntegrity && e.message@
            == uncited_segment_message() && !e.retryable,
        !constraint_violated ==> e == storage_error,
{
    if constraint_violated {
        CoreError::new(
            ErrorCode::DataIntegrity,
            "A analise citou um trecho que nao existe nesta transcricao.",
            false,
        )
    } else {
        storage_error
    }
}

pub const INSERT_INSIGHT: &'static str = "INSERT INTO meeting_insights (id, meeting_id, kind, seq, text, owner, due_hint, confidence, status, origin, due_at, due_confidence) VALUES (?1, ?2, ?3, ?4, ?5, ?6, ?7, ?8, ?9, ?10, ?11, ?12)";

pub const INSERT_EVIDENCE: &'static str = "INSERT INTO meeting_evidence (insight_id, segment_id, seq, char_start, char_end) VALUES (?1, ?2, ?3, ?4, ?5)";

pub const UPSERT_ANALYSIS: &'static str = "INSERT INTO meeting_analyses (meeting_id, summary, model, produced_at, windows) VALUES (?1, ?2, ?3, ?4, ?5) ON CONFLICT(meeting_id) DO UPDATE SET summary = ?2, model = ?3, produced_at = ?4, windows = ?5";

pub const DELETE_UNACCEPTED_SPOKEN: &'static str = "DELETE FROM meeting_insights WHERE meeting_id = ?1 AND status <> 'accepted' AND origin = 'spoken'";

pub const LARGEST_KEPT: &'static str = "SELECT COALESCE(MAX(seq), -1) FROM meeting_insights WHERE meeting_id = ?1";

/// The row an item of a meeting is stored as, numbered `seq`, in column
/// order.
pub open spec fn insight_row(v: Seq<SqlValue>, insight: InsightRecord, key: Seq<char>, seq: int) -> bool {
    &&& v.len() == 12
    &&& is_text(v[0], insight.id@)
    &&& is_text(v[1], key)
    &&& is_text(v[2], insight.kind@)
    &&& match v[3] {
        SqlValue::Integer(n) => n == seq,
        _ => false,
    }
    &&& is_text(v[4], insight.text@)
    &&& is_optional_text(v[5], insight.owner)
    &&& is_optional_text(v[6], insight.due_hint)
    &&& is_text(v[7], insight.confidence@)
    &&& is_text(v[8], insight.status@)
    &&& is_text(v[9], insight.origin@)
    &&& is_optional_text(v[10], insight.due_at)
    &&& is_optional_text(v[11], insight.due_confidence)
}

/// The row an analysis is stored as, in column order.
pub open spec fn analysis_row(v: Seq<SqlValue>, analysis: AnalysisRecord) -> bool {
    &&& v.len() == 5
    &&& is_text(v[0], analysis.meeting_id@)
    &&& is_text(v[1], analysis.summary@)
    &&& is_text(v[2], analysis.model@)
    &&& is_text(v[3], analysis.produced_at@)
    &&& is_integer(v[4], analysis.windows)
}

/// The values an item of a meeting is inserted with, numbered `seq`.
pub fn insight_values(insight: &InsightRecord, meeting_key: &str, seq: i64) -> (v: Vec<SqlValue>)
    ensures
        insight_row(v@, *insight, meeting_key@, seq as int),
{
    let mut row = Vec::new();
    row.push(SqlValue::Text(insight.id.clone()));
    row.push(SqlValue::Text(String::from_str(meeting_key)));
    row.push(SqlValue::Text(insight.kind.clone()));
    row.push(SqlValue::Integer(seq));
    row.push(SqlValue::Text(insight.text.clone()));
    row.push(optional_text(&insight.owner));
    row.push(optional_text(&insight.due_hint));
    row.push(SqlValue::Text(insight.confidence.clone()));
    row.push(SqlValue::Text(insight.status.clone()));
    row.push(SqlValue::Text(insight.origin.clone()));
    row.push(optional_text(&insight.due_at));
    row.push(optional_text(&insight.due_confidence));
    row
}

/// The values an analysis is stored with.
pub fn analysis_values(analysis: &AnalysisRecord) -> (v: Vec<SqlValue>)
    ensures
        analysis_row(v@, *analysis),
{
    let mut row = Vec::new();
    row.push(SqlValue::Text(analysis.meeting_id.clone()));
    row.push(SqlValue::Text(analysis.summary.clone()));
    row.push(SqlValue::Text(analysis.model.clone()));
    row.push(SqlValue::Text(analysis.produced_at.clone()));
    row.push(SqlValue::Integer(analysis.windows));
    row
}

/// The row of the `j`-th evidence of `insight` at position `at + j`.
pub open spec fn evidence_at(e: Seq<Event>, at: int, j: int, insight: InsightRecord) -> bool {
    e[at + j] matches Event::Execute(q, v) && q == INSERT_EVIDENCE@ && evidence_row(
        v,
        insight.id@,
        insight.evidence@[j],
    )
}

/// The rows of the evidence of `insight`, in order, from position `at` on.
pub open spec fn evidence_written(e: Seq<Event>, at: int, insight: InsightRecord) -> bool {
    forall|j: int| 0 <= j < insight.evidence@.len() ==> #[trigger] evidence_at(e, at, j, insight)
}

/// The item `insight`, numbered `seq`, written from position `at` on: its
/// row, then the row of each of its evidence, in order.
pub open spec fn item_written(e: Seq<Event>, at: int, insight: InsightRecord, key: Seq<char>, seq: int) -> bool {
    &&& e.len() >= at + 1 + insight.evidence@.len()
    &&& e[at] matches Event::Execute(q, v) && q == INSERT_INSIGHT@ && insight_row(v, insight, key, seq)
    &&& evidence_written(e, at + 1, insight)
}

/// How many rows the items before the `i`-th one take: one per item and one
/// per evidence of each.
#[verifier::opaque]
pub open spec fn item_start(insights: Seq<InsightRecord>, i: int) -> int {
    i + cited(insights.take(i)).len()
}

/// The first `count` items, written one after the other from position `p`
/// on, numbered from `first` in order.
#[verifier::opaque]
pub open spec fn items_written(
    e: Seq<Event>,
    p: int,
    insights: Seq<InsightRecord>,
    key: Seq<char>,
    first: int,
    count: int,
) -> bool {
    forall|i: int|
        0 <= i < count ==> item_written(e, p + item_start(insights, i), #[trigger] insights[i], key, first + i)
}

proof fn lemma_item_start_step(insights: Seq<InsightRecord>, i: int)
    requires
        0 <= i < insights.len(),
    ensures
        item_start(insights, i + 1) == item_start(insights, i) + 1 + insights[i].evidence@.len(),
{
    reveal(item_start);
    assert(insights.take(i + 1).drop_last() =~= insights.take(i));
    assert(insights.take(i + 1).last() == insights[i]);
}

proof fn lemma_item_start_first(insights: Seq<InsightRecord>)
    ensures
        item_start(insights, 0) == 0,
{
    reveal(item_start);
    assert(insights.take(0) =~= Seq::<InsightRecord>::empty());
}

proof fn lemma_item_start_nonnegative(insights: Seq<InsightRecord>, i: int)
    requires
        0 <= i,
    ensures
        item_start(insights, i) >= 0,
{
    reveal(item_start);
}

proof fn lemma_item_start_all(insights: Seq<InsightRecord>)
    ensures
        item_start(insights, insights.len() as int) == insights.len() + cited(insights).len(),
{
    reveal(item_start);
    assert(insights.take(insights.len() as int) =~= insights);
}

proof fn lemma_item_kept(after: Seq<Event>, before: Seq<Event>, at: int, insight: InsightRecord, key: Seq<char>, seq: int)
    requires
        extends(after, before),
        0 <= at,
        item_written(before, at, insight, key, seq),
    ensures
        item_written(after, at, insight, key, seq),
{
    crate::sqlite::lemma_kept_at(after, before, at);
    assert forall|j: int| 0 <= j < insight.evidence@.len() implies #[trigger] evidence_at(after, at + 1, j, insight) by {
        assert(evidence_at(before, at + 1, j, insight));
        crate::sqlite::lemma_kept_at(after, before, at + 1 + j);
    }
}

proof fn lemma_items_kept(
    after: Seq<Event>,
    before: Seq<Event>,
    p: int,
    insights: Seq<InsightRecord>,
    key: Seq<char>,
    first: int,
    count: int,
)
    requires
        extends(after, before),
        0 <= p,
        items_written(before, p, insights, key, first, count),
    ensures
        items_written(after, p, insights, key, first, count),
{
    reveal(items_written);
    assert forall|i: int| 0 <= i < count implies item_written(
        after,
        p + item_start(insights, i),
        #[trigger] insights[i],
        key,
        first + i,
    ) by {
        lemma_item_start_nonnegative(insights, i);
        lemma_item_kept(after, before, p + item_start(insights, i), insights[i], key, first + i);
    }
}

proof fn lemma_items_none(e: Seq<Event>, p: int, insights: Seq<InsightRecord>, key: Seq<char>, first: int)
    ensures
        items_written(e, p, insights, key, first, 0),
{
    reveal(items_written);
}

/// One more item written after the first `w`: its row right after theirs,
/// then its evidence.
proof fn lemma_item_appended(
    e: Seq<Event>,
    before_row: Seq<Event>,
    after_row: Seq<Event>,
    p: int,
    insights: Seq<InsightRecord>,
    key: Seq<char>,
    first: int,
    w: int,
)
    requires
        0 <= w < insights.len(),
        0 <= p,
        items_written(before_row, p, insights, key, first, w),
        before_row.len() == p + item_start(insights, w),
        sqlite::one_more(before_row, after_row),
        after_row.last() matches Event::Execute(q, v) && q == INSERT_INSIGHT@ && insight_row(
            v,
            insights[w],
            key,
            first + w,
        ),
        extends(e, after_row),
        e.len() == after_row.len() + insights[w].evidence@.len(),
        evidence_written(e, after_row.len() as int, insights[w]),
    ensures
        items_written(e, p, insights, key, first, w + 1),
        e.len() == p + item_start(insights, w + 1),
{
    lemma_item_start_step(insights, w);
    crate::sqlite::lemma_push(before_row, after_row.last());
    assert(after_row =~= before_row.push(after_row.last()));
    lemma_extends_trans(e, after_row, before_row);
    lemma_items_kept(e, before_row, p, insights, key, first, w);
    let at = p + item_start(insights, w);
    crate::sqlite::lemma_kept_at(e, after_row, at);
    assert(item_written(e, at, insights[w], key, first + w));
    reveal(items_written);
    assert forall|i: int| 0 <= i < w + 1 implies item_written(
        e,
        p + item_start(insights, i),
        #[trigger] insights[i],
        key,
        first + i,
    ) by {
        if i < w {
            assert(items_written(e, p, insights, key, first, w));
        }
    }
}

/// Writes the row of an item of a meeting under the number `seq`: the trace
/// shows that one insertion, with the row `insight_values` builds.
pub fn insert_insight_row(
    connection: &rusqlite::Connection,
    insight: &InsightRecord,
    meeting_key: &str,
    seq: i64,
    trace: &mut Trace,
) -> (r: Result<(), CoreError>)
    ensures
        outcome_well_formed(r),
        sqlite::one_more(old(trace).events@, final(trace).events@),
        final(trace).events@.last() matches Event::Execute(q, v) && q == INSERT_INSIGHT@ && insight_row(
            v,
            *insight,
            meeting_key@,
            seq as int,
        ),
{
    let ghost base = trace.events@;
    let row = insight_values(insight, meeting_key, seq);
    let inserted = sqlite::execute_traced(connection, INSERT_INSIGHT, &row, trace);
    proof {
        assert(trace.events@.drop_last() =~= base);
    }
    sql(inserted)?;
    Ok(())
}

/// Writes the evidence of an item, in order; a row the database refuses for
/// a constraint is reported as an analysis citing a missing segment. The
/// trace shows one insertion per evidence written, and on success exactly
/// the rows of all of them.
fn insert_evidence(connection: &rusqlite::Connection, insight: &InsightRecord, trace: &mut Trace) -> (r:
    Result<(), CoreError>)
    ensures
        outcome_well_formed(r),
        insight.evidence@.len() == 0 ==> r is Ok,
        extends(final(trace).events@, old(trace).events@),
        final(trace).events@.len() <= old(trace).events@.len() + insight.evidence@.len(),
        commits(final(trace).events@) == commits(old(trace).events@),
        r is Ok ==> final(trace).events@.len() == old(trace).events@.len() + insight.evidence@.len()
            && evidence_written(final(trace).events@, old(trace).events@.len() as int, *insight),
{
    let ghost base = trace.events@;
    let ghost b = base.len() as int;
    proof {
        lemma_extends_refl(base);
    }
    let mut i: usize = 0;
    while i < insight.evidence.len()
        invariant
            i <= insight.evidence@.len(),
            extends(trace.events@, base),
            base == old(trace).events@,
            b == base.len(),
            trace.events@.len() == b + i,
            commits(trace.events@) == commits(base),
            forall|j: int| 0 <= j < i ==> #[trigger] evidence_at(trace.events@, b, j, *insight),
        decreases insight.evidence@.len() - i,
    {
        let evidence = &insight.evidence[i];
        let mut row = Vec::new();
        row.push(SqlValue::Text(insight.id.clone()));
        row.push(SqlValue::Text(evidence.segment_id.clone()));
        row.push(SqlValue::Integer(evidence.seq));
        row.push(optional_integer(evidence.char_start));
        row.push(optional_integer(evidence.char_end));
        let ghost before = trace.events@;
        let inserted = sqlite::execute_traced(connection, INSERT_EVIDENCE, &row, trace);
        proof {
            lemma_step(base, before, Event::Execute(INSERT_EVIDENCE@, row@));
            lemma_push(before, Event::Execute(INSERT_EVIDENCE@, row@));
            assert(evidence_row(row@, insight.id@, insight.evidence@[i as int]));
            assert forall|j: int| 0 <= j < i + 1 implies #[trigger] evidence_at(trace.events@, b, j, *insight) by {
                if j < i {
                    assert(evidence_at(before, b, j, *insight));
                    crate::sqlite::lemma_kept_at(trace.events@, before, b + j);
                }
            }
        }
        match inserted {
            Ok(_) => {},
            Err(error) => {
                let violated = sqlite::is_constraint_violation(&error);
                return Err(evidence_error(violated, map_sql_error(error)));
            },
        }
        i = i + 1;
    }
    Ok(())
}

impl SqliteStorage {
    /// Stores a new analysis of a meeting in one transaction: the analysis
    /// replaces the previous one; the items spoken in the meeting that were
    /// not accepted are dropped (accepted items and written ones stay); the
    /// new items are numbered after the largest number kept, in the order
    /// given, each followed by its evidence; and the meeting is indexed
    /// again. Returns how many items were written. On success the trace
    /// shows exactly, in this order: the analysis row, the deletion of the
    /// unaccepted spoken items, the read of the largest number kept, each
    /// item row (numbered from one past that number) followed by the rows of
    /// its evidence, the meeting's new search entry (`meeting_indexed`), and
    /// the commit; on failure nothing was committed.
    pub fn replace_analysis(
        &self,
        analysis: &AnalysisRecord,
        insights: &Vec<InsightRecord>,
        trace: &mut Trace,
    ) -> (r: Result<usize, CoreError>)
        ensures
            outcome_well_formed(r),
            r is Ok ==> r->Ok_0 == insights@.len(),
            extends(final(trace).events@, old(trace).events@),
            r is Ok ==> {
                let e = final(trace).events@;
                let b = old(trace).events@.len() as int;
                let key = analysis.meeting_id@;
                let w = insights@.len() + cited(insights@).len();
                &&& e.len() == b + w + 11
                &&& e[b] matches Event::Execute(q, v) && q == UPSERT_ANALYSIS@ && analysis_row(v, *analysis)
                &&& keyed_execute(e[b + 1], DELETE_UNACCEPTED_SPOKEN@, key)
                &&& e[b + 2] matches Event::ReadInteger(q, v, kept) && q == LARGEST_KEPT@ && key_row(v, key)
                    && items_written(e, b + 3, insights@, key, kept + 1, insights@.len() as int)
                &&& meeting_indexed(e, b + 3 + w, key)
                &&& e[b + w + 10] is Commit
            },
            r is Err ==> commits(final(trace).events@) == commits(old(trace).events@),
    {
        let ghost base = trace.events@;
        let ghost b = base.len() as int;
        proof {
            lemma_extends_refl(base);
        }
        let transaction = sql(sqlite::begin(self.connection()))?;
        let inside = sqlite::in_transaction(&transaction);
        let key = analysis.meeting_id.as_str();
        let row = analysis_values(analysis);
        let upserted = sqlite::execute_traced(inside, UPSERT_ANALYSIS, &row, trace);
        let ghost e0 = Event::Execute(UPSERT_ANALYSIS@, row@);
        proof {
            lemma_step(base, base, e0);
        }
        let ghost t1 = trace.events@;
        sql(upserted)?;
        let values = key_values(key);
        let deleted = sqlite::execute_traced(inside, DELETE_UNACCEPTED_SPOKEN, &values, trace);
        let ghost e1 = Event::Execute(DELETE_UNACCEPTED_SPOKEN@, values@);
        proof {
            lemma_step(base, t1, e1);
        }
        let ghost t2 = trace.events@;
        sql(deleted)?;
        let kept_read = sqlite::query_integer_with_traced(inside, LARGEST_KEPT, &values, trace);
        proof {
            if kept_read is Ok {
                lemma_step(base, t2, Event::ReadInteger(LARGEST_KEPT@, values@, kept_read->Ok_0));
            }
        }
        let kept = sql(kept_read)?;
        let ghost e2 = Event::ReadInteger(LARGEST_KEPT@, values@, kept);
        let ghost t3 = trace.events@;
        proof {
            assert(t3 =~= base.push(e0).push(e1).push(e2));
            lemma_extends_refl(t3);
            lemma_item_start_first(insights@);
            lemma_items_none(t3, b + 3, insights@, key@, kept + 1);
        }
        let mut written: usize = 0;
        while written < insights.len()
            invariant
                written <= insights@.len(),
                base == old(trace).events@,
                b == base.len(),
                t3 == base.push(e0).push(e1).push(e2),
                extends(trace.events@, t3),
                extends(t3, base),
                extends(trace.events@, base),
                key@ == analysis.meeting_id@,
                commits(trace.events@) == commits(base),
                trace.events@.len() == b + 3 + item_start(insights@, written as int),
                items_written(trace.events@, b + 3, insights@, key@, kept + 1, written as int),
            decreases insights@.len() - written,
        {
            let seq = match insight_seq(kept, written) {
                Some(seq) => seq,
                None => {
                    return Err(
                        CoreError::new(
                            ErrorCode::DataIntegrity,
                            "A numeracao dos itens desta reuniao se esgotou.",
                            false,
                        ),
                    );
                },
            };
            let ghost w = written as int;
            let ghost before_row = trace.events@;
            let inserted = insert_insight_row(inside, &insights[written], key, seq, trace);
            proof {
                let last = trace.events@.last();
                assert(trace.events@ =~= before_row.push(last));
                lemma_step(base, before_row, last);
                lemma_push(before_row, last);
                lemma_extends_trans(trace.events@, before_row, t3);
                lemma_items_kept(trace.events@, before_row, b + 3, insights@, key@, kept + 1, w);
            }
            inserted?;
            let ghost after_row = trace.events@;
            let evidence_done = insert_evidence(inside, &insights[written], trace);
            proof {
                lemma_extends_trans(trace.events@, after_row, t3);
                lemma_extends_trans(trace.events@, after_row, base);
                lemma_items_kept(trace.events@, after_row, b + 3, insights@, key@, kept + 1, w);
            }
            evidence_done?;
            proof {
                lemma_item_appended(trace.events@, before_row, after_row, b + 3, insights@, key@, kept + 1, w);
            }
            written = written + 1;
        }
        let ghost t_loop = trace.events@;
        let ghost n = insights@.len() as int;
        let ghost width = insights@.len() + cited(insights@).len();
        proof {
            lemma_item_start_all(insights@);
            lemma_extends_trans(t_loop, t3, base);
        }
        let indexed = index_meeting(inside, key, trace);
        proof {
            lemma_extends_trans(trace.events@, t_loop, base);
            lemma_extends_trans(trace.events@, t_loop, t3);
            lemma_items_kept(trace.events@, t_loop, b + 3, insights@, key@, kept + 1, n);
        }
        indexed?;
        let ghost t5 = trace.events@;
        let committed = finish(transaction, trace);
        proof {
            if committed is Ok {
                lemma_push(t5, Event::Commit);
                lemma_extends_trans(trace.events@, t5, base);
            }
        }
        committed?;
        proof {
            let e = trace.events@;
            lemma_extends_trans(e, t5, t3);
            lemma_items_kept(e, t5, b + 3, insights@, key@, kept + 1, n);
            crate::sqlite::lemma_kept_at(e, t3, b);
            crate::sqlite::lemma_kept_at(e, t3, b + 1);
            crate::sqlite::lemma_kept_at(e, t3, b + 2);
            let k = b + 3 + width;
            assert(t_loop.len() == k);
            assert forall|j: int| k <= j < k + 7 implies e[j] == t5[j] by {}
            assert(meeting_indexed(e, k, analysis.meeting_id@));
        }
        Ok(written)
    }

    /// Sets or clears the due date of an item (in the stored time format)
    /// and the confidence in it (by its stored word).
    pub fn set_insight_due(
        &self,
        insight_key: &str,
        due_at: Option<String>,
        confidence: Option<String>,
        trace: &mut Trace,
    ) -> (r: Result<(), CoreError>)
        ensures
            outcome_well_formed(r),
            sqlite::one_more(old(trace).events@, final(trace).events@),
            final(trace).events@.last() matches Event::Execute(q, v) && q == SET_INSIGHT_DUE@ && v.len() == 3
                && is_text(v[0], insight_key@) && is_optional_text(v[1], due_at) && is_optional_text(
                v[2],
                confidence,
            ),
    {
        let mut values = Vec::new();
        values.push(SqlValue::Text(String::from_str(insight_key)));
        values.push(optional_text(&due_at));
        values.push(optional_text(&confidence));
        let ghost base = trace.events@;
        let done = run(self.connection(), SET_INSIGHT_DUE, &values, trace);
        proof {
            assert(trace.events@.drop_last() =~= base);
        }
        done?;
        Ok(())
    }

    /// Deletes, in one transaction, the segments of a meeting that start
    /// before `start_ms` or at or after `end_ms` (their text in the
    /// transcript index first, then the link, then the segment), and indexes
    /// the meeting again. Returns how many segments were deleted. On success
    /// the trace shows the read of the segments outside the window, the three
    /// deletions keyed by each of them, in order, and the commit; on failure
    /// nothing was committed.
    pub fn remove_segments_outside(&self, meeting_key: &str, start_ms: i64, end_ms: i64, trace: &mut Trace) -> (r:
        Result<usize, CoreError>)
        ensures
            outcome_well_formed(r),
            extends(final(trace).events@, old(trace).events@),
            r is Err ==> commits(final(trace).events@) == commits(old(trace).events@),
            r is Ok ==> {
                let e = final(trace).events@;
                let b = old(trace).events@.len() as int;
                let n = r->Ok_0 as int;
                &&& e.len() == b + 9 + 3 * n
                &&& e[b] matches Event::ReadRows(q, v, rows) && q == SEGMENTS_OUTSIDE@ && window_values(
                    v,
                    meeting_key@,
                    start_ms,
                    end_ms,
                ) && rows.len() == n && forall|i: int|
                    0 <= i < n ==> segment_removed(e, b + 1 + 3 * i, #[trigger] rows[i])
                &&& meeting_indexed(e, b + 1 + 3 * n, meeting_key@)
                &&& e[b + 8 + 3 * n] is Commit
            },
    {
        let ghost base = trace.events@;
        let ghost b = base.len() as int;
        proof {
            lemma_extends_refl(base);
        }
        let transaction = sql(sqlite::begin(self.connection()))?;
        let inside = sqlite::in_transaction(&transaction);
        let mut window = Vec::new();
        window.push(SqlValue::Text(String::from_str(meeting_key)));
        window.push(SqlValue::Integer(start_ms));
        window.push(SqlValue::Integer(end_ms));
        let read = sqlite::query_texts(inside, SEGMENTS_OUTSIDE, &window, trace);
        proof {
            if read is Ok {
                lemma_step(base, base, trace.events@.last());
                assert(trace.events@ =~= base.push(trace.events@.last()));
            }
        }
        let outside = sql(read)?;
        let ghost rows = outside@.map_values(|t: String| sqlite::text_cells(t));
        let ghost t1 = trace.events@;
        proof {
            lemma_extends_refl(t1);
        }
        let mut i: usize = 0;
        while i < outside.len()
            invariant
                i <= outside@.len(),
                b == base.len(),
                base == old(trace).events@,
                rows == outside@.map_values(|t: String| sqlite::text_cells(t)),
                t1.len() == b + 1,
                extends(t1, base),
                extends(trace.events@, t1),
                extends(trace.events@, base),
                trace.events@.len() == b + 1 + 3 * i,
                commits(trace.events@) == commits(base),
                forall|k: int| 0 <= k < i ==> segment_removed(trace.events@, b + 1 + 3 * k, #[trigger] rows[k]),
            decreases outside@.len() - i,
        {
            let segment = key_values(outside[i].as_str());
            let ghost t_before = trace.events@;
            let d1 = run(inside, DELETE_SEGMENT_TEXT, &segment, trace);
            proof {
                lemma_step(base, t_before, Event::Execute(DELETE_SEGMENT_TEXT@, segment@));
                lemma_step(t1, t_before, Event::Execute(DELETE_SEGMENT_TEXT@, segment@));
            }
            d1?;
            let ghost t_a = trace.events@;
            let d2 = run(inside, DELETE_SEGMENT_LINK, &segment, trace);
            proof {
                lemma_step(base, t_a, Event::Execute(DELETE_SEGMENT_LINK@, segment@));
                lemma_step(t1, t_a, Event::Execute(DELETE_SEGMENT_LINK@, segment@));
            }
            d2?;
            let ghost t_b = trace.events@;
            let d3 = run(inside, DELETE_SEGMENT, &segment, trace);
            proof {
                lemma_step(base, t_b, Event::Execute(DELETE_SEGMENT@, segment@));
                lemma_step(t1, t_b, Event::Execute(DELETE_SEGMENT@, segment@));
                let e = trace.events@;
                assert(e =~= t_before.push(Event::Execute(DELETE_SEGMENT_TEXT@, segment@)).push(
                    Event::Execute(DELETE_SEGMENT_LINK@, segment@),
                ).push(Event::Execute(DELETE_SEGMENT@, segment@)));
                assert(rows[i as int] == sqlite::text_cells(outside@[i as int]));
                assert(segment_removed(e, b + 1 + 3 * i, rows[i as int]));
                assert forall|k: int| 0 <= k < i + 1 implies segment_removed(e, b + 1 + 3 * k, #[trigger] rows[k]) by {
                    if k < i {
                        assert(segment_removed(t_before, b + 1 + 3 * k, rows[k]));
                        assert(e[b + 1 + 3 * k] == t_before[b + 1 + 3 * k]);
                        assert(e[b + 2 + 3 * k] == t_before[b + 2 + 3 * k]);
                        assert(e[b + 3 + 3 * k] == t_before[b + 3 + 3 * k]);
                    }
                }
            }
            d3?;
            i = i + 1;
        }
        let ghost t_loop = trace.events@;
        let indexed = index_meeting(inside, meeting_key, trace);
        proof {
            lemma_extends_trans(trace.events@, t_loop, base);
        }
        indexed?;
        let ghost t2 = trace.events@;
        let committed = finish(transaction, trace);
        proof {
            if committed is Ok {
                lemma_push(t2, Event::Commit);
                lemma_extends_trans(trace.events@, t2, base);
                crate::sqlite::lemma_extends_trans(t2, t_loop, t1);
                crate::sqlite::lemma_kept_at(t2, t1, b);
                assert forall|j: int| t_loop.len() <= j < t_loop.len() + 7 implies trace.events@[j] == t2[j] by {}
                assert(meeting_indexed(trace.events@, t_loop.len() as int, meeting_key@));
                assert forall|k: int| 0 <= k < outside@.len() implies segment_removed(
                    trace.events@,
                    b + 1 + 3 * k,
                    #[trigger] rows[k],
                ) by {
                    assert(segment_removed(t_loop, b + 1 + 3 * k, rows[k]));
                    crate::sqlite::lemma_kept_at(t2, t_loop, b + 1 + 3 * k);
                    crate::sqlite::lemma_kept_at(t2, t_loop, b + 2 + 3 * k);
                    crate::sqlite::lemma_kept_at(t2, t_loop, b + 3 + 3 * k);
                    assert(trace.events@[b + 1 + 3 * k] == t2[b + 1 + 3 * k]);
                    assert(trace.events@[b + 2 + 3 * k] == t2[b + 2 + 3 * k]);
                    assert(trace.events@[b + 3 + 3 * k] == t2[b + 3 + 3 * k]);
                }
            }
        }
        committed?;
        Ok(outside.len())
    }
}


// ---------------------------------------------------------------------------
// Bookmarks
// ---------------------------------------------------------------------------

/// A moment of a meeting someone marked, with a note; `created_at` is in the
/// stored time format.
#[derive(Debug)]
pub struct BookmarkRecord {
    pub id: String,
    pub meeting_id: String,
    pub at_ms: i64,
    pub note: String,
    pub created_at: String,
}

/// The values a bookmark is inserted with, in column order: a moment before
/// the start of the meeting is stored as its start.
pub open spec fn bookmark_row(v: Seq<SqlValue>, bookmark: BookmarkRecord) -> bool {
    &&& v.len() == 5
    &&& is_text(v[0], bookmark.id@)
    &&& is_text(v[1], bookmark.meeting_id@)
    &&& is_integer(v[2], if bookmark.at_ms < 0 { 0 } else { bookmark.at_ms })
    &&& is_text(v[3], bookmark.note@)
    &&& is_text(v[4], bookmark.created_at@)
}

pub fn bookmark_values(bookmark: &BookmarkRecord) -> (v: Vec<SqlValue>)
    ensures
        bookmark_row(v@, *bookmark),
        v@.len() == 5,
        is_text(v@[0], bookmark.id@),
        is_text(v@[1], bookmark.meeting_id@),
        is_integer(v@[2], if bookmark.at_ms < 0 { 0 } else { bookmark.at_ms }),
        is_text(v@[3], bookmark.note@),
        is_text(v@[4], bookmark.created_at@),
{
    let at_ms: i64 = if bookmark.at_ms < 0 { 0 } else { bookmark.at_ms };
    let mut v = Vec::new();
    v.push(SqlValue::Text(bookmark.id.clone()));
    v.push(SqlValue::Text(bookmark.meeting_id.clone()));
    v.push(SqlValue::Integer(at_ms));
    v.push(SqlValue::Text(bookmark.note.clone()));
    v.push(SqlValue::Text(bookmark.created_at.clone()));
    v
}

/// The values a stored bookmark row holds, in column order.
pub open spec fn bookmark_cells(b: BookmarkRecord) -> Seq<SqlValue> {
    seq![
        SqlValue::Text(b.id),
        SqlValue::Text(b.meeting_id),
        SqlValue::Integer(b.at_ms),
        SqlValue::Text(b.note),
        SqlValue::Text(b.created_at),
    ]
}

/// Every row `sql` returns with the meeting bound to `?1`, in its order,
/// read as a bookmark, recorded in the trace with the rows when there are.
/// Nothing is stated of the rows.
#[verifier::external_body]
fn read_bookmarks(connection: &rusqlite::Connection, sql: &str, meeting_key: &str, trace: &mut Trace) -> (r: Result<
    Vec<BookmarkRecord>,
    rusqlite::Error,
>)
    ensures
        r is Ok ==> {
            &&& sqlite::one_more(old(trace).events@, final(trace).events@)
            &&& final(trace).events@.last() matches Event::ReadRows(q, v, rows) && q == sql@ && key_row(v, meeting_key@)
                && rows == r->Ok_0@.map_values(|b: BookmarkRecord| bookmark_cells(b))
        },
        r is Err ==> final(trace).events@ == old(trace).events@,
{
    let mut statement = connection.prepare(
        sql,
    )?;
    let rows = statement.query_map([meeting_key], |row| Ok(BookmarkRecord { id: row.get(0)?, meeting_id: row.get(1)?, at_ms: row.get(2)?, note: row.get(3)?, created_at: row.get(4)? }))?;
    rows.collect()
}

impl SqliteStorage {
    /// Stores a bookmark, with the values `bookmark_values` gives: the trace
    /// shows that one insertion.
    pub fn add_meeting_bookmark(&self, bookmark: &BookmarkRecord, trace: &mut Trace) -> (r: Result<(), CoreError>)
        ensures
            outcome_well_formed(r),
            sqlite::one_more(old(trace).events@, final(trace).events@),
            final(trace).events@.last() matches Event::Execute(q, v) && q == ADD_BOOKMARK@ && bookmark_row(v, *bookmark),
    {
        let values = bookmark_values(bookmark);
        let ghost base = trace.events@;
        let done = run(self.connection(), ADD_BOOKMARK, &values, trace);
        proof {
            assert(trace.events@.drop_last() =~= base);
        }
        done?;
        Ok(())
    }

    /// The bookmarks of a meeting, by moment: the trace shows the rows read,
    /// which are the bookmarks returned, in order.
    pub fn meeting_bookmarks(&self, meeting_key: &str, trace: &mut Trace) -> (r: Result<Vec<BookmarkRecord>, CoreError>)
        ensures
            outcome_well_formed(r),
            r is Ok ==> {
                &&& sqlite::one_more(old(trace).events@, final(trace).events@)
                &&& final(trace).events@.last() matches Event::ReadRows(q, v, rows) && q == BOOKMARKS_OF@
                    && key_row(v, meeting_key@) && rows == r->Ok_0@.map_values(|b: BookmarkRecord| bookmark_cells(b))
            },
    {
        sql(read_bookmarks(self.connection(), BOOKMARKS_OF, meeting_key, trace))
    }
}

} // verus!
