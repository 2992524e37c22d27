//! The bookkeeping of conversations that does not depend on their messages'
//! contents.

use vstd::prelude::*;
use crate::clock;
use crate::cronocad::format_error;
use crate::error::{CoreError, ErrorCode};
use crate::sqlite::{
    self, commits, extends, gained, keyed, keyed_execute, lemma_extends_refl, lemma_step,
    pair_option_view, text_value, Event, SqlValue, Trace,
};
use crate::storage::{finish, outcome_well_formed, rebuild_projection, run, sql, SqliteStorage};

verus! {

pub const TOUCH_CONVERSATION: &'static str = "UPDATE conversations SET updated_at = ?2 WHERE id = ?1";

pub const DELETE_CONVERSATION: &'static str = "DELETE FROM conversations WHERE id = ?1";

pub const MESSAGE_POSITION: &'static str = "SELECT conversation_id, seq FROM messages WHERE id = ?1";

pub const DELETE_FROM_POSITION: &'static str = "DELETE FROM messages WHERE conversation_id = ?1 AND seq >= ?2";

/// The update that marks a conversation as touched at `now`.
pub open spec fn touched(e: Event, conversation: Seq<char>, now: Seq<char>) -> bool {
    match e {
        Event::Execute(q, v) => q == TOUCH_CONVERSATION@ && v.len() == 2 && text_value(v[0], conversation)
            && text_value(v[1], now),
        _ => false,
    }
}

/// The deletion of the messages of a conversation from a position on.
pub open spec fn deleted_from(e: Event, conversation: Seq<char>, position: i64) -> bool {
    match e {
        Event::Execute(q, v) => q == DELETE_FROM_POSITION@ && v.len() == 2 && text_value(v[0], conversation)
            && v[1] == SqlValue::Integer(position),
        _ => false,
    }
}

/// Marks a conversation as touched at `now`: the trace shows that one
/// update.
pub fn touch(connection: &rusqlite::Connection, conversation_id: &str, now: &str, trace: &mut Trace) -> (r:
    Result<(), CoreError>)
    ensures
        outcome_well_formed(r),
        gained(old(trace).events@, final(trace).events@, 1),
        touched(final(trace).events@.last(), conversation_id@, now@),
        commits(final(trace).events@) == commits(old(trace).events@),
{
    let ghost base = trace.events@;
    let mut values = Vec::new();
    values.push(SqlValue::Text(String::from_str(conversation_id)));
    values.push(SqlValue::Text(String::from_str(now)));
    let done = run(connection, TOUCH_CONVERSATION, &values, trace);
    proof {
        lemma_extends_refl(base);
        lemma_step(base, base, Event::Execute(TOUCH_CONVERSATION@, values@));
    }
    done?;
    Ok(())
}

pub const MESSAGE_COUNT: &'static str = "SELECT count(*) FROM messages WHERE conversation_id = ?1";

pub const LAST_TEXT: &'static str = "SELECT p.search_text FROM message_parts p JOIN messages m ON m.id = p.message_id WHERE m.conversation_id = ?1 AND p.search_text <> '' ORDER BY m.seq DESC, p.seq DESC LIMIT 1";

pub const SETTLE_UNFINISHED: &'static str = "UPDATE messages SET status = 'interrupted' WHERE status IN ('pending', 'streaming')";

/// How many messages a conversation holds: what the trace shows the count
/// read answered.
pub fn message_count(connection: &rusqlite::Connection, conversation_id: &str, trace: &mut Trace) -> (r: Result<
    i64,
    CoreError,
>)
    ensures
        outcome_well_formed(r),
        r is Ok ==> {
            &&& sqlite::one_more(old(trace).events@, final(trace).events@)
            &&& final(trace).events@.last() matches Event::ReadInteger(q, v, n) && q == MESSAGE_COUNT@
                && keyed(v, conversation_id@) && n == r->Ok_0
        },
{
    let mut values = Vec::new();
    values.push(SqlValue::Text(String::from_str(conversation_id)));
    let ghost base = trace.events@;
    let read = sqlite::query_integer_with_traced(connection, MESSAGE_COUNT, &values, trace);
    proof {
        if read is Ok {
            assert(trace.events@.drop_last() =~= base);
        }
    }
    sql(read)
}

/// The text of the latest part of a conversation that has any, newest
/// message first: what the trace shows the read answered.
pub fn last_text(connection: &rusqlite::Connection, conversation_id: &str, trace: &mut Trace) -> (r: Result<
    Option<String>,
    CoreError,
>)
    ensures
        outcome_well_formed(r),
        r is Ok ==> {
            &&& sqlite::one_more(old(trace).events@, final(trace).events@)
            &&& final(trace).events@.last() matches Event::ReadOptionalText(q, v, text) && q == LAST_TEXT@
                && keyed(v, conversation_id@) && text == sqlite::optional_view(r->Ok_0)
        },
{
    let mut values = Vec::new();
    values.push(SqlValue::Text(String::from_str(conversation_id)));
    let ghost base = trace.events@;
    let read = sqlite::query_first_text_traced(connection, LAST_TEXT, &values, trace);
    proof {
        if read is Ok {
            assert(trace.events@.drop_last() =~= base);
        }
    }
    sql(read)
}

pub open spec fn conversation_not_found_message() -> Seq<char> {
    "Conversa nao encontrada."@
}

pub open spec fn message_not_found_message() -> Seq<char> {
    "Mensagem nao encontrada."@
}

/// A deletion that removed no row means the conversation does not exist.
pub fn ensure_conversation_removed(removed: u64) -> (r: Result<(), CoreError>)
    ensures
        r is Ok <==> removed != 0,
        r is Err ==> r->Err_0.code == ErrorCode::NotFound && r->Err_0.message@
            == conversation_not_found_message() && !r->Err_0.retryable,
{
    if removed == 0 {
        Err(CoreError::new(ErrorCode::NotFound, "Conversa nao encontrada.", false))
    } else {
        Ok(())
    }
}

/// The conversation and position of a message, from what its lookup found:
/// a message that is not there is `NotFound`.
pub fn message_position(found: Option<(String, i64)>) -> (r: Result<(String, i64), CoreError>)
    ensures
        found is Some <==> r is Ok,
        found is Some ==> r->Ok_0.0@ == found->Some_0.0@ && r->Ok_0.1 == found->Some_0.1,
        found is None ==> r->Err_0.code == ErrorCode::NotFound && r->Err_0.message@
            == message_not_found_message() && !r->Err_0.retryable,
{
    match found {
        Some(position) => Ok(position),
        None => Err(CoreError::new(ErrorCode::NotFound, "Mensagem nao encontrada.", false)),
    }
}

impl SqliteStorage {
    /// Deletes a conversation (its messages and their parts go with it) in
    /// one transaction; a conversation that is not there is `NotFound`. On
    /// success the trace shows the deletion, the count of rows it removed
    /// (not zero) and the commit; when the count is zero the call is
    /// `NotFound` and stops there; on failure nothing was committed.
    pub fn delete_conversation(&self, conversation_id: &str, trace: &mut Trace) -> (r: Result<
        (),
        CoreError,
    >)
        ensures
            outcome_well_formed(r),
            extends(final(trace).events@, old(trace).events@),
            r is Ok ==> {
                let e = final(trace).events@;
                let b = old(trace).events@.len() as int;
                &&& gained(old(trace).events@, e, 3)
                &&& keyed_execute(e[b], DELETE_CONVERSATION@, conversation_id@)
                &&& e[b + 1] matches Event::Changed(n) && n > 0
                &&& e[b + 2] is Commit
            },
            ({
                let e = final(trace).events@;
                let b = old(trace).events@.len() as int;
                e.len() >= b + 2 && e[b + 1] == Event::Changed(0)
            }) ==> r is Err && r->Err_0.code == ErrorCode::NotFound && r->Err_0.message@
                == conversation_not_found_message() && final(trace).events@.len() == old(trace).events@.len()
                + 2,
            r is Err ==> commits(final(trace).events@) == commits(old(trace).events@),
    {
        let ghost base = trace.events@;
        proof {
            lemma_extends_refl(base);
        }
        let transaction = sql(sqlite::begin(self.connection()))?;
        let inside = sqlite::in_transaction(&transaction);
        let mut values = Vec::new();
        values.push(SqlValue::Text(String::from_str(conversation_id)));
        let removed = run(inside, DELETE_CONVERSATION, &values, trace);
        let ghost e0 = Event::Execute(DELETE_CONVERSATION@, values@);
        proof {
            lemma_step(base, base, e0);
        }
        removed?;
        let ghost t0 = trace.events@;
        let changed = sqlite::changes_traced(inside, trace);
        proof {
            lemma_step(base, t0, Event::Changed(changed));
        }
        ensure_conversation_removed(changed)?;
        let ghost t1 = trace.events@;
        let committed = finish(transaction, trace);
        proof {
            if committed is Ok {
                crate::sqlite::lemma_push(t1, Event::Commit);
                crate::sqlite::lemma_extends_trans(trace.events@, t1, base);
                assert(trace.events@ =~= base.push(e0).push(Event::Changed(changed)).push(Event::Commit));
            }
        }
        committed
    }

    /// Deletes a message and every later one of its conversation, and marks
    /// the conversation as touched, in one transaction; a message that is
    /// not there is `NotFound`, and then nothing is deleted. On success the
    /// trace shows the lookup of the message's conversation and position,
    /// the deletion from that position on, the touch, and the commit; on
    /// failure nothing was committed.
    pub fn truncate_from(&self, message_id: &str, trace: &mut Trace) -> (r: Result<(), CoreError>)
        ensures
            outcome_well_formed(r),
            extends(final(trace).events@, old(trace).events@),
            r is Ok ==> {
                let e = final(trace).events@;
                let b = old(trace).events@.len() as int;
                &&& gained(old(trace).events@, e, 4)
                &&& match e[b] {
                    Event::ReadTextInteger(q, v, Some(position)) => {
                        &&& q == MESSAGE_POSITION@
                        &&& keyed(v, message_id@)
                        &&& deleted_from(e[b + 1], position.0, position.1)
                        &&& e[b + 2] matches Event::Execute(t, tv) && t == TOUCH_CONVERSATION@
                            && tv.len() == 2 && text_value(tv[0], position.0)
                    },
                    _ => false,
                }
                &&& e[b + 3] is Commit
            },
            ({
                let e = final(trace).events@;
                let b = old(trace).events@.len() as int;
                e.len() > b && e[b] matches Event::ReadTextInteger(q, v, None)
            }) ==> r is Err && r->Err_0.code == ErrorCode::NotFound && final(trace).events@.len()
                == old(trace).events@.len() + 1,
            r is Err ==> commits(final(trace).events@) == commits(old(trace).events@),
    {
        let ghost base = trace.events@;
        proof {
            lemma_extends_refl(base);
        }
        let transaction = sql(sqlite::begin(self.connection()))?;
        let inside = sqlite::in_transaction(&transaction);
        let mut key = Vec::new();
        key.push(SqlValue::Text(String::from_str(message_id)));
        let found = sqlite::query_first_text_integer_traced(inside, MESSAGE_POSITION, &key, trace);
        proof {
            if found is Ok {
                lemma_step(base, base, Event::ReadTextInteger(MESSAGE_POSITION@, key@, pair_option_view(found->Ok_0)));
            }
        }
        let found = sql(found)?;
        let ghost e0 = Event::ReadTextInteger(MESSAGE_POSITION@, key@, pair_option_view(found));
        let ghost t1 = trace.events@;
        let (conversation_id, seq) = message_position(found)?;
        let mut later = Vec::new();
        later.push(SqlValue::Text(conversation_id.clone()));
        later.push(SqlValue::Integer(seq));
        let deleted = run(inside, DELETE_FROM_POSITION, &later, trace);
        let ghost e1 = Event::Execute(DELETE_FROM_POSITION@, later@);
        proof {
            lemma_step(base, t1, e1);
            lemma_extends_refl(t1);
            lemma_step(t1, t1, e1);
            crate::sqlite::lemma_kept_at(trace.events@, t1, base.len() as int);
        }
        deleted?;
        let ghost t2 = trace.events@;
        let now = match clock::now_rfc3339() {
            Ok(now) => now,
            Err(detail) => return Err(format_error(detail.as_str())),
        };
        let touched_now = touch(inside, conversation_id.as_str(), now.as_str(), trace);
        let ghost t3 = trace.events@;
        proof {
            crate::sqlite::lemma_extends_trans(t3, t2, base);
            crate::sqlite::lemma_extends_trans(t3, t2, t1);
            crate::sqlite::lemma_kept_at(t3, t1, base.len() as int);
        }
        touched_now?;
        let committed = finish(transaction, trace);
        proof {
            if committed is Ok {
                crate::sqlite::lemma_push(t3, Event::Commit);
                crate::sqlite::lemma_extends_trans(trace.events@, t3, base);
                assert(t3.drop_last() =~= t2);
                assert(trace.events@ =~= base.push(e0).push(e1).push(t3.last()).push(Event::Commit));
            }
        }
        committed
    }


    /// Settles the messages a previous run left unfinished as interrupted;
    /// returns how many. The trace shows that one update.
    pub fn settle_unfinished_messages(&self, trace: &mut Trace) -> (r: Result<usize, CoreError>)
        ensures
            outcome_well_formed(r),
            final(trace).events@ == old(trace).events@.push(Event::Execute(SETTLE_UNFINISHED@, Seq::empty())),
    {
        let no_values: Vec<SqlValue> = Vec::new();
        let done = run(self.connection(), SETTLE_UNFINISHED, &no_values, trace);
        proof {
            assert(no_values@ =~= Seq::<SqlValue>::empty());
        }
        done
    }

    /// Rebuilds the message search index; returns how many rows it holds.
    pub fn rebuild_conversation_search(&self, trace: &mut Trace) -> (r: Result<usize, CoreError>)
        ensures
            outcome_well_formed(r),
            r is Ok ==> {
                let e = final(trace).events@;
                let b = old(trace).events@.len() as int;
                &&& e.len() == b + 3
                &&& e[b] == Event::Execute(crate::storage::rebuild_statement("message_search"@), Seq::empty())
                &&& e[b + 1] matches Event::ReadInteger(q, v, count) && q == crate::storage::count_statement(
                    "message_search"@,
                ) && r->Ok_0 == count as usize
                &&& e[b + 2] is Commit
            },
    {
        rebuild_projection(self.connection(), "message_search", trace)
    }
}

} // verus!
