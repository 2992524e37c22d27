//! The calls this library makes into `rusqlite`, and the trace that records
//! them.
//!
//! The `external_body` items here are trusted: Verus reads their contract and
//! not their body. What a query returns depends on the database on disk, so
//! no contract here states the value that comes back; the verified callers
//! decide on every value. The traced calls add one event to a `Trace`: what
//! was handed to SQLite and, for a read, what it answered. The trace is ghost
//! state of the library's own; nothing of it exists at run time.

use vstd::prelude::*;

verus! {

#[verifier::external_type_specification]
#[verifier::external_body]
pub struct ExConnection(rusqlite::Connection);

#[verifier::external_type_specification]
#[verifier::external_body]
pub struct ExSqlError(rusqlite::Error);

#[verifier::external_type_specification]
#[verifier::external_body]
pub struct ExTransaction<'conn>(rusqlite::Transaction<'conn>);

/// The kind of a `rusqlite::Error`, as far as the storage tells kinds apart.
#[derive(Clone, Copy, Debug, PartialEq, Eq, Structural)]
pub enum SqlFailure {
    /// `SqliteFailure` with code `DatabaseBusy`.
    Busy,
    /// `SqliteFailure` with code `DatabaseLocked`.
    Locked,
    /// `SqliteFailure` with code `DiskFull`.
    DiskFull,
    /// `SqliteFailure` with code `DatabaseCorrupt`.
    Corrupt,
    /// Any other error.
    Other,
}

/// A value bound to a parameter of a statement.
#[derive(Debug)]
pub enum SqlValue {
    Null,
    Integer(i64),
    Text(String),
}

/// One exchange with SQLite: what was handed to it and, for a read, what it
/// answered.
pub enum Event {
    /// A batch of statements.
    Batch(Seq<char>),
    /// A statement with the values bound to it.
    Execute(Seq<char>, Seq<SqlValue>),
    /// A copy of the main database into the file at a path.
    Backup(Seq<char>),
    /// A read of one text, and the text that came back.
    ReadText(Seq<char>, Seq<char>),
    /// A read of one integer with the values bound, and the integer that
    /// came back.
    ReadInteger(Seq<char>, Seq<SqlValue>, i64),
    /// A read of the first text of a query with the values bound, and the
    /// text that came back (`None` without a row).
    ReadOptionalText(Seq<char>, Seq<SqlValue>, Option<Seq<char>>),
    /// A read of the first text and integer of a query with the values
    /// bound, and what came back (`None` without a row).
    ReadTextInteger(Seq<char>, Seq<SqlValue>, Option<(Seq<char>, i64)>),
    /// A read of every `(text, integer)` row of a query with the values
    /// bound, and the rows that came back.
    ReadCounts(Seq<char>, Seq<SqlValue>, Seq<(Seq<char>, i64)>),
    /// A read of the first row of a query with the values bound, each of
    /// its first columns as a text or `NULL`, and the row that came back
    /// (`None` without a row).
    ReadRow(Seq<char>, Seq<SqlValue>, Option<Seq<Option<Seq<char>>>>),
    /// A read of every row of a query with the values bound, each row as
    /// the values of its columns.
    ReadRows(Seq<char>, Seq<SqlValue>, Seq<Seq<SqlValue>>),
    /// The number of rows the latest statement on the connection changed, as
    /// the connection reported it.
    Changed(u64),
    /// A transaction committed.
    Commit,
}

/// The values bound are exactly these texts, in order.
pub open spec fn bound_texts(v: Seq<SqlValue>, texts: Seq<Seq<char>>) -> bool {
    v.len() == texts.len() && forall|k: int| 0 <= k < v.len() ==> text_value(#[trigger] v[k], texts[k])
}

/// `after` is `before` with one more event.
pub open spec fn one_more(before: Seq<Event>, after: Seq<Event>) -> bool {
    after.len() == before.len() + 1 && after.drop_last() == before
}

/// An execution of `sql` with exactly these texts bound.
pub open spec fn ran_with(e: Event, sql: Seq<char>, texts: Seq<Seq<char>>) -> bool {
    e matches Event::Execute(q, v) && q == sql && bound_texts(v, texts)
}

/// The view of each text of a list.
pub open spec fn str_views(items: Seq<&str>) -> Seq<Seq<char>> {
    items.map_values(|s: &str| s@)
}

/// The texts, each as a value to bind, in order.
pub fn text_values(items: &Vec<&str>) -> (v: Vec<SqlValue>)
    ensures
        bound_texts(v@, str_views(items@)),
{
    let mut v: Vec<SqlValue> = Vec::new();
    let mut i: usize = 0;
    while i < items.len()
        invariant
            i <= items@.len(),
            v@.len() == i,
            forall|k: int| 0 <= k < i ==> text_value(#[trigger] v@[k], items@[k]@),
        decreases items@.len() - i,
    {
        v.push(SqlValue::Text(String::from_str(items[i])));
        i = i + 1;
    }
    v
}

/// Two values that hold the same: the same text, the same integer, or both
/// `NULL`.
pub open spec fn same_value(a: SqlValue, b: SqlValue) -> bool {
    match (a, b) {
        (SqlValue::Text(x), SqlValue::Text(y)) => x@ == y@,
        (SqlValue::Integer(x), SqlValue::Integer(y)) => x == y,
        (SqlValue::Null, SqlValue::Null) => true,
        _ => false,
    }
}

/// Two rows of values that hold the same, column by column.
pub open spec fn cells_match(v: Seq<SqlValue>, w: Seq<SqlValue>) -> bool {
    v.len() == w.len() && forall|k: int| 0 <= k < v.len() ==> same_value(#[trigger] v[k], w[k])
}

/// An execution of `sql` with values that hold the same as `cells`.
pub open spec fn inserted_as(e: Event, sql: Seq<char>, cells: Seq<SqlValue>) -> bool {
    e matches Event::Execute(q, v) && q == sql && cells_match(v, cells)
}

/// The view of `(text, integer)` rows.
pub open spec fn pairs_view(rows: Seq<(String, i64)>) -> Seq<(Seq<char>, i64)> {
    rows.map_values(|row: (String, i64)| (row.0@, row.1))
}

/// The view of an optional `(text, integer)` row.
pub open spec fn pair_option_view(row: Option<(String, i64)>) -> Option<(Seq<char>, i64)> {
    match row {
        Some(pair) => Some((pair.0@, pair.1)),
        None => None,
    }
}

/// A value that is the given text.
pub open spec fn text_value(v: SqlValue, s: Seq<char>) -> bool {
    v matches SqlValue::Text(t) && t@ == s
}

/// Values that are one text: the key.
pub open spec fn keyed(values: Seq<SqlValue>, key: Seq<char>) -> bool {
    values.len() == 1 && text_value(values[0], key)
}

/// An execution of `sql` with the key as its only value.
pub open spec fn keyed_execute(e: Event, sql: Seq<char>, key: Seq<char>) -> bool {
    match e {
        Event::Execute(q, values) => q == sql && keyed(values, key),
        _ => false,
    }
}

/// How many commits a trace holds.
pub open spec fn commits(events: Seq<Event>) -> nat
    decreases events.len(),
{
    if events.len() == 0 {
        0
    } else {
        commits(events.drop_last()) + (if events.last() is Commit {
            1nat
        } else {
            0nat
        })
    }
}

/// The values bound to each `(text, integer)` rows read `sql` of a trace,
/// and the rows, in order.
pub open spec fn counts_read(events: Seq<Event>, sql: Seq<char>) -> Seq<(Seq<SqlValue>, Seq<(Seq<char>, i64)>)>
    decreases events.len(),
{
    if events.len() == 0 {
        Seq::empty()
    } else {
        counts_read(events.drop_last(), sql) + match events.last() {
            Event::ReadCounts(q, values, rows) => if q == sql {
                seq![(values, rows)]
            } else {
                Seq::empty()
            },
            _ => Seq::empty(),
        }
    }
}

/// The view of an optional text.
pub open spec fn optional_view(value: Option<String>) -> Option<Seq<char>> {
    match value {
        Some(text) => Some(text@),
        None => None,
    }
}

/// The view of a row of texts or `NULL`s, if there is one.
pub open spec fn row_view(row: Option<Vec<Option<String>>>) -> Option<Seq<Option<Seq<char>>>> {
    match row {
        Some(cells) => Some(cells@.map_values(|cell: Option<String>| optional_view(cell))),
        None => None,
    }
}

/// The exchanges with SQLite so far, oldest first; ghost state, for the
/// proofs only.
pub struct Trace {
    pub events: Ghost<Seq<Event>>,
}

impl Trace {
    /// An empty trace.
    pub fn new() -> (t: Trace)
        ensures
            t.events@ == Seq::<Event>::empty(),
    {
        Trace { events: Ghost(Seq::empty()) }
    }
}

/// The batches a trace handed to SQLite, in order.
pub open spec fn batches(events: Seq<Event>) -> Seq<Seq<char>>
    decreases events.len(),
{
    if events.len() == 0 {
        Seq::empty()
    } else {
        batches(events.drop_last()) + match events.last() {
            Event::Batch(sql) => seq![sql],
            _ => Seq::empty(),
        }
    }
}

/// The files a trace copied the database into, in order.
pub open spec fn backups(events: Seq<Event>) -> Seq<Seq<char>>
    decreases events.len(),
{
    if events.len() == 0 {
        Seq::empty()
    } else {
        backups(events.drop_last()) + match events.last() {
            Event::Backup(path) => seq![path],
            _ => Seq::empty(),
        }
    }
}

/// The statements (with their values) a trace executed, in order.
pub open spec fn statements(events: Seq<Event>) -> Seq<(Seq<char>, Seq<SqlValue>)>
    decreases events.len(),
{
    if events.len() == 0 {
        Seq::empty()
    } else {
        statements(events.drop_last()) + match events.last() {
            Event::Execute(sql, values) => seq![(sql, values)],
            _ => Seq::empty(),
        }
    }
}

/// The values each statement `sql` of a trace was executed with, in order.
pub open spec fn executed(events: Seq<Event>, sql: Seq<char>) -> Seq<Seq<SqlValue>>
    decreases events.len(),
{
    if events.len() == 0 {
        Seq::empty()
    } else {
        executed(events.drop_last(), sql) + match events.last() {
            Event::Execute(q, values) => if q == sql {
                seq![values]
            } else {
                Seq::empty()
            },
            _ => Seq::empty(),
        }
    }
}

/// The values bound to each integer read `sql` of a trace, and what it
/// answered, in order.
pub open spec fn integers_read(events: Seq<Event>, sql: Seq<char>) -> Seq<(Seq<SqlValue>, i64)>
    decreases events.len(),
{
    if events.len() == 0 {
        Seq::empty()
    } else {
        integers_read(events.drop_last(), sql) + match events.last() {
            Event::ReadInteger(q, values, answer) => if q == sql {
                seq![(values, answer)]
            } else {
                Seq::empty()
            },
            _ => Seq::empty(),
        }
    }
}

/// The values bound to each optional text read `sql` of a trace, and what it
/// answered, in order.
pub open spec fn texts_read(events: Seq<Event>, sql: Seq<char>) -> Seq<(Seq<SqlValue>, Option<Seq<char>>)>
    decreases events.len(),
{
    if events.len() == 0 {
        Seq::empty()
    } else {
        texts_read(events.drop_last(), sql) + match events.last() {
            Event::ReadOptionalText(q, values, answer) => if q == sql {
                seq![(values, answer)]
            } else {
                Seq::empty()
            },
            _ => Seq::empty(),
        }
    }
}

/// Adding an event adds to the statements and reads of one kind only what
/// the event itself is.
pub proof fn lemma_push_filters(events: Seq<Event>, e: Event)
    ensures
        forall|q: Seq<char>|
            #[trigger] executed(events.push(e), q) == executed(events, q) + match e {
                Event::Execute(sql, values) => if sql == q {
                    seq![values]
                } else {
                    Seq::empty()
                },
                _ => Seq::empty(),
            },
        forall|q: Seq<char>|
            #[trigger] integers_read(events.push(e), q) == integers_read(events, q) + match e {
                Event::ReadInteger(sql, values, answer) => if sql == q {
                    seq![(values, answer)]
                } else {
                    Seq::empty()
                },
                _ => Seq::empty(),
            },
        forall|q: Seq<char>|
            #[trigger] counts_read(events.push(e), q) == counts_read(events, q) + match e {
                Event::ReadCounts(sql, values, rows) => if sql == q {
                    seq![(values, rows)]
                } else {
                    Seq::empty()
                },
                _ => Seq::empty(),
            },
        forall|q: Seq<char>|
            #[trigger] texts_read(events.push(e), q) == texts_read(events, q) + match e {
                Event::ReadOptionalText(sql, values, answer) => if sql == q {
                    seq![(values, answer)]
                } else {
                    Seq::empty()
                },
                _ => Seq::empty(),
            },
{
    assert(events.push(e).drop_last() =~= events);
}

/// `later` holds everything `earlier` held, in the same places.
pub open spec fn extends(later: Seq<Event>, earlier: Seq<Event>) -> bool {
    earlier.len() <= later.len() && later.subrange(0, earlier.len() as int) == earlier
}

/// Adding an event keeps what was recorded, and adds to the batches, copies
/// and statements only what the event itself is.
pub proof fn lemma_push(events: Seq<Event>, e: Event)
    ensures
        extends(events.push(e), events),
        batches(events.push(e)) == batches(events) + match e {
            Event::Batch(sql) => seq![sql],
            _ => Seq::empty(),
        },
        backups(events.push(e)) == backups(events) + match e {
            Event::Backup(path) => seq![path],
            _ => Seq::empty(),
        },
        statements(events.push(e)) == statements(events) + match e {
            Event::Execute(sql, values) => seq![(sql, values)],
            _ => Seq::empty(),
        },
        commits(events.push(e)) == commits(events) + (if e is Commit {
            1nat
        } else {
            0nat
        }),
{
    assert(events.push(e).drop_last() =~= events);
    assert(events.push(e).subrange(0, events.len() as int) =~= events);
}

/// A step that is no commit keeps a trace extending `base` and its commits.
pub proof fn lemma_step(base: Seq<Event>, before: Seq<Event>, e: Event)
    requires
        extends(before, base),
        !(e is Commit),
    ensures
        extends(before.push(e), base),
        commits(before.push(e)) == commits(before),
{
    lemma_push(before, e);
    lemma_extends_trans(before.push(e), before, base);
}

/// The trace `after` is `before` with `added` events after it.
pub open spec fn gained(before: Seq<Event>, after: Seq<Event>, added: nat) -> bool {
    extends(after, before) && after.len() == before.len() + added
}

/// What a trace held stays in place as it grows.
pub proof fn lemma_kept_at(after: Seq<Event>, before: Seq<Event>, i: int)
    requires
        extends(after, before),
        0 <= i < before.len(),
    ensures
        after[i] == before[i],
{
    assert(after.subrange(0, before.len() as int)[i] == after[i]);
}

/// A trace extends itself.
pub proof fn lemma_extends_refl(events: Seq<Event>)
    ensures
        extends(events, events),
{
    assert(events.subrange(0, events.len() as int) =~= events);
}

/// Extending is transitive.
pub proof fn lemma_extends_trans(a: Seq<Event>, b: Seq<Event>, c: Seq<Event>)
    requires
        extends(a, b),
        extends(b, c),
    ensures
        extends(a, c),
{
    assert(a.subrange(0, c.len() as int) =~= b.subrange(0, c.len() as int));
}

/// Tells the variants of `rusqlite::Error` (and, for `SqliteFailure`, of its
/// `ffi::ErrorCode`) apart. Nothing is stated: the error is opaque to Verus.
#[verifier::external_body]
pub(crate) fn classify(error: &rusqlite::Error) -> (kind: SqlFailure) {
    match error {
        rusqlite::Error::SqliteFailure(details, _) => match details.code {
            rusqlite::ErrorCode::DatabaseBusy => SqlFailure::Busy,
            rusqlite::ErrorCode::DatabaseLocked => SqlFailure::Locked,
            rusqlite::ErrorCode::DiskFull => SqlFailure::DiskFull,
            rusqlite::ErrorCode::DatabaseCorrupt => SqlFailure::Corrupt,
            _ => SqlFailure::Other,
        },
        _ => SqlFailure::Other,
    }
}

/// Whether a `rusqlite::Error` is a `SqliteFailure` with code
/// `ConstraintViolation`. Nothing is stated: the error is opaque to Verus.
#[verifier::external_body]
pub(crate) fn is_constraint_violation(error: &rusqlite::Error) -> (violated: bool) {
    match error {
        rusqlite::Error::SqliteFailure(details, _) => details.code == rusqlite::ErrorCode::ConstraintViolation,
        _ => false,
    }
}

/// The text `rusqlite::Error` displays. Nothing is stated of it.
#[verifier::external_body]
pub(crate) fn error_text(error: &rusqlite::Error) -> (text: String) {
    error.to_string()
}

/// `Connection::open` on a path. Nothing is stated: it depends on the disk.
#[verifier::external_body]
pub(crate) fn open(path: &str) -> (r: Result<rusqlite::Connection, rusqlite::Error>) {
    rusqlite::Connection::open(path)
}

/// `Connection::open_with_flags` with `SQLITE_OPEN_READ_ONLY | SQLITE_OPEN_URI`.
/// Nothing is stated: it depends on the disk.
#[verifier::external_body]
pub(crate) fn open_read_only(path: &str) -> (r: Result<rusqlite::Connection, rusqlite::Error>) {
    rusqlite::Connection::open_with_flags(
        path,
        rusqlite::OpenFlags::SQLITE_OPEN_READ_ONLY | rusqlite::OpenFlags::SQLITE_OPEN_URI,
    )
}

/// `Connection::busy_timeout` with the given milliseconds, which must fit in
/// an `i32` (rusqlite panics beyond). Nothing is stated.
#[verifier::external_body]
pub(crate) fn busy_timeout(connection: &rusqlite::Connection, millis: u64) -> (r: Result<
    (),
    rusqlite::Error,
>)
    requires
        millis <= 0x7fff_ffff,
{
    connection.busy_timeout(std::time::Duration::from_millis(millis))
}

/// `Connection::execute_batch`, recorded in the trace as the batch handed to
/// SQLite. Nothing is stated of the outcome: it depends on the database.
#[verifier::external_body]
pub(crate) fn execute_batch_traced(connection: &rusqlite::Connection, sql: &str, trace: &mut Trace) -> (r:
    Result<(), rusqlite::Error>)
    ensures
        final(trace).events@ == old(trace).events@.push(Event::Batch(sql@)),
{
    connection.execute_batch(sql)
}

/// `Connection::execute_batch`, untraced.
pub(crate) fn execute_batch(connection: &rusqlite::Connection, sql: &str) -> (r: Result<
    (),
    rusqlite::Error,
>) {
    let mut trace = Trace::new();
    execute_batch_traced(connection, sql, &mut trace)
}

/// `Connection::execute` with the values bound to `?1`, `?2`, ... in order,
/// recorded in the trace as the statement and values handed to SQLite.
/// Nothing is stated of the count of changed rows.
#[verifier::external_body]
pub(crate) fn execute_traced(
    connection: &rusqlite::Connection,
    sql: &str,
    values: &Vec<SqlValue>,
    trace: &mut Trace,
) -> (r: Result<usize, rusqlite::Error>)
    ensures
        final(trace).events@ == old(trace).events@.push(Event::Execute(sql@, values@)),
{
    let bound: Vec<rusqlite::types::Value> = values.iter().map(|value| match value {
        SqlValue::Null => rusqlite::types::Value::Null,
        SqlValue::Integer(number) => rusqlite::types::Value::Integer(*number),
        SqlValue::Text(text) => rusqlite::types::Value::Text(text.clone()),
    }).collect();
    connection.execute(sql, rusqlite::params_from_iter(bound))
}

/// `Connection::execute` with the values bound, untraced.
pub(crate) fn execute(connection: &rusqlite::Connection, sql: &str, values: &Vec<SqlValue>) -> (r:
    Result<usize, rusqlite::Error>) {
    let mut trace = Trace::new();
    execute_traced(connection, sql, values, &mut trace)
}

/// `Connection::query_row` reading column 0 of the first row as a `String`,
/// recorded in the trace with the answer when there is one. Nothing is
/// stated of the value.
#[verifier::external_body]
pub(crate) fn query_text_traced(connection: &rusqlite::Connection, sql: &str, trace: &mut Trace) -> (r:
    Result<String, rusqlite::Error>)
    ensures
        r is Ok ==> final(trace).events@ == old(trace).events@.push(Event::ReadText(sql@, r->Ok_0@)),
        r is Err ==> final(trace).events@ == old(trace).events@,
{
    connection.query_row(sql, [], |row| row.get::<_, String>(0))
}

/// `Connection::query_row` reading column 0 of the first row as an
/// `Option<String>`, recorded in the trace with the answer when there is
/// one. Nothing is stated of the value.
#[verifier::external_body]
pub(crate) fn query_optional_text_traced(connection: &rusqlite::Connection, sql: &str, trace: &mut Trace) -> (r:
    Result<Option<String>, rusqlite::Error>)
    ensures
        r is Ok ==> final(trace).events@ == old(trace).events@.push(
            Event::ReadOptionalText(sql@, Seq::empty(), optional_view(r->Ok_0)),
        ),
        r is Err ==> final(trace).events@ == old(trace).events@,
{
    connection.query_row(sql, [], |row| row.get::<_, Option<String>>(0))
}

/// `Connection::query_row` with the values bound to `?1`, `?2`, ... reading
/// column 0 of the first row as an `Option<String>` (a query with no row
/// fails with `QueryReturnedNoRows`), recorded in the trace with the answer
/// when there is one. Nothing is stated of the value.
#[verifier::external_body]
pub(crate) fn query_optional_text_with(
    connection: &rusqlite::Connection,
    sql: &str,
    values: &Vec<SqlValue>,
    trace: &mut Trace,
) -> (r: Result<Option<String>, rusqlite::Error>)
    ensures
        r is Ok ==> final(trace).events@ == old(trace).events@.push(
            Event::ReadOptionalText(sql@, values@, optional_view(r->Ok_0)),
        ),
        r is Err ==> final(trace).events@ == old(trace).events@,
{
    let bound: Vec<rusqlite::types::Value> = values.iter().map(|value| match value {
        SqlValue::Null => rusqlite::types::Value::Null,
        SqlValue::Integer(number) => rusqlite::types::Value::Integer(*number),
        SqlValue::Text(text) => rusqlite::types::Value::Text(text.clone()),
    }).collect();
    connection.query_row(sql, rusqlite::params_from_iter(bound), |row| row.get::<_, Option<String>>(0))
}

/// `Connection::query_row` with the values bound, reading column 0 of the
/// first row as a `String`; `None` when the query returns no row
/// (`QueryReturnedNoRows`). Recorded in the trace with the answer when there
/// is one. Nothing is stated of the value.
#[verifier::external_body]
pub(crate) fn query_first_text_traced(
    connection: &rusqlite::Connection,
    sql: &str,
    values: &Vec<SqlValue>,
    trace: &mut Trace,
) -> (r: Result<Option<String>, rusqlite::Error>)
    ensures
        r is Ok ==> final(trace).events@ == old(trace).events@.push(
            Event::ReadOptionalText(sql@, values@, optional_view(r->Ok_0)),
        ),
        r is Err ==> final(trace).events@ == old(trace).events@,
{
    let bound: Vec<rusqlite::types::Value> = values.iter().map(|value| match value {
        SqlValue::Null => rusqlite::types::Value::Null,
        SqlValue::Integer(number) => rusqlite::types::Value::Integer(*number),
        SqlValue::Text(text) => rusqlite::types::Value::Text(text.clone()),
    }).collect();
    match connection.query_row(sql, rusqlite::params_from_iter(bound), |row| row.get::<_, String>(0)) {
        Ok(text) => Ok(Some(text)),
        Err(rusqlite::Error::QueryReturnedNoRows) => Ok(None),
        Err(error) => Err(error),
    }
}

/// `Connection::query_row` with the values bound, reading column 0 of the
/// first row as an `i64`, recorded in the trace with the answer when there is
/// one. Nothing is stated of the value.
#[verifier::external_body]
pub(crate) fn query_integer_with_traced(
    connection: &rusqlite::Connection,
    sql: &str,
    values: &Vec<SqlValue>,
    trace: &mut Trace,
) -> (r: Result<i64, rusqlite::Error>)
    ensures
        r is Ok ==> final(trace).events@ == old(trace).events@.push(
            Event::ReadInteger(sql@, values@, r->Ok_0),
        ),
        r is Err ==> final(trace).events@ == old(trace).events@,
{
    let bound: Vec<rusqlite::types::Value> = values.iter().map(|value| match value {
        SqlValue::Null => rusqlite::types::Value::Null,
        SqlValue::Integer(number) => rusqlite::types::Value::Integer(*number),
        SqlValue::Text(text) => rusqlite::types::Value::Text(text.clone()),
    }).collect();
    connection.query_row(sql, rusqlite::params_from_iter(bound), |row| row.get::<_, i64>(0))
}

/// `Connection::query_row` with the values bound, reading column 0 of the
/// first row as a `String` and column 1 as an `i64`; `None` when the query
/// returns no row (`QueryReturnedNoRows`). Recorded in the trace with the
/// answer when there is one. Nothing is stated of the values.
#[verifier::external_body]
pub(crate) fn query_first_text_integer_traced(
    connection: &rusqlite::Connection,
    sql: &str,
    values: &Vec<SqlValue>,
    trace: &mut Trace,
) -> (r: Result<Option<(String, i64)>, rusqlite::Error>)
    ensures
        r is Ok ==> final(trace).events@ == old(trace).events@.push(
            Event::ReadTextInteger(sql@, values@, pair_option_view(r->Ok_0)),
        ),
        r is Err ==> final(trace).events@ == old(trace).events@,
{
    let bound: Vec<rusqlite::types::Value> = values.iter().map(|value| match value {
        SqlValue::Null => rusqlite::types::Value::Null,
        SqlValue::Integer(number) => rusqlite::types::Value::Integer(*number),
        SqlValue::Text(text) => rusqlite::types::Value::Text(text.clone()),
    }).collect();
    rusqlite::OptionalExtension::optional(connection.query_row(sql, rusqlite::params_from_iter(bound), |row| Ok((row.get::<_, String>(0)?, row.get::<_, i64>(1)?))))
}

/// `Connection::query_row` with the values bound, reading columns 0 and 1 of
/// the first row as `i64`s, recorded in the trace (as that one row) when the
/// read succeeds. Nothing is stated of the values.
#[verifier::external_body]
pub(crate) fn query_two_integers(
    connection: &rusqlite::Connection,
    sql: &str,
    values: &Vec<SqlValue>,
    trace: &mut Trace,
) -> (r: Result<(i64, i64), rusqlite::Error>)
    ensures
        r is Ok ==> final(trace).events@ == old(trace).events@.push(
            Event::ReadRows(sql@, values@, seq![seq![SqlValue::Integer(r->Ok_0.0), SqlValue::Integer(r->Ok_0.1)]]),
        ),
        r is Err ==> final(trace).events@ == old(trace).events@,
{
    let bound: Vec<rusqlite::types::Value> = values.iter().map(|value| match value {
        SqlValue::Null => rusqlite::types::Value::Null,
        SqlValue::Integer(number) => rusqlite::types::Value::Integer(*number),
        SqlValue::Text(text) => rusqlite::types::Value::Text(text.clone()),
    }).collect();
    connection.query_row(sql, rusqlite::params_from_iter(bound), |row| Ok((row.get::<_, i64>(0)?, row.get::<_, i64>(1)?)))
}

/// The values of a row of two texts.
pub open spec fn pair_cells(pair: (String, String)) -> Seq<SqlValue> {
    seq![SqlValue::Text(pair.0), SqlValue::Text(pair.1)]
}

/// Every row of a query with the values bound, each read as a pair of
/// `String`s from its first two columns, recorded in the trace with the rows
/// when there are. Nothing is stated of the rows.
#[verifier::external_body]
pub(crate) fn query_text_pairs(
    connection: &rusqlite::Connection,
    sql: &str,
    values: &Vec<SqlValue>,
    trace: &mut Trace,
) -> (r: Result<Vec<(String, String)>, rusqlite::Error>)
    ensures
        r is Ok ==> final(trace).events@ == old(trace).events@.push(
            Event::ReadRows(sql@, values@, r->Ok_0@.map_values(|p: (String, String)| pair_cells(p))),
        ),
        r is Err ==> final(trace).events@ == old(trace).events@,
{
    let bound: Vec<rusqlite::types::Value> = values.iter().map(|value| match value {
        SqlValue::Null => rusqlite::types::Value::Null,
        SqlValue::Integer(number) => rusqlite::types::Value::Integer(*number),
        SqlValue::Text(text) => rusqlite::types::Value::Text(text.clone()),
    }).collect();
    let mut statement = connection.prepare(sql)?;
    let rows = statement.query_map(rusqlite::params_from_iter(bound), |row| Ok((row.get::<_, String>(0)?, row.get::<_, String>(1)?)))?;
    rows.collect()
}

/// `Connection::query_row` with the values bound, reading column 0 of the
/// first row as a `String` (a query with no row fails with
/// `QueryReturnedNoRows`), recorded in the trace with the answer when there
/// is one. Nothing is stated of the value.
#[verifier::external_body]
pub(crate) fn query_text_with(
    connection: &rusqlite::Connection,
    sql: &str,
    values: &Vec<SqlValue>,
    trace: &mut Trace,
) -> (r: Result<String, rusqlite::Error>)
    ensures
        r is Ok ==> final(trace).events@ == old(trace).events@.push(
            Event::ReadOptionalText(sql@, values@, Some(r->Ok_0@)),
        ),
        r is Err ==> final(trace).events@ == old(trace).events@,
{
    let bound: Vec<rusqlite::types::Value> = values.iter().map(|value| match value {
        SqlValue::Null => rusqlite::types::Value::Null,
        SqlValue::Integer(number) => rusqlite::types::Value::Integer(*number),
        SqlValue::Text(text) => rusqlite::types::Value::Text(text.clone()),
    }).collect();
    connection.query_row(sql, rusqlite::params_from_iter(bound), |row| row.get::<_, String>(0))
}

/// The values of a row of one text.
pub open spec fn text_cells(text: String) -> Seq<SqlValue> {
    seq![SqlValue::Text(text)]
}

/// Every row of a query with the values bound, each read as a `String` from
/// its first column, recorded in the trace with the rows when there are.
/// Nothing is stated of the rows.
#[verifier::external_body]
pub(crate) fn query_texts(
    connection: &rusqlite::Connection,
    sql: &str,
    values: &Vec<SqlValue>,
    trace: &mut Trace,
) -> (r: Result<Vec<String>, rusqlite::Error>)
    ensures
        r is Ok ==> final(trace).events@ == old(trace).events@.push(
            Event::ReadRows(sql@, values@, r->Ok_0@.map_values(|t: String| text_cells(t))),
        ),
        r is Err ==> final(trace).events@ == old(trace).events@,
{
    let bound: Vec<rusqlite::types::Value> = values.iter().map(|value| match value {
        SqlValue::Null => rusqlite::types::Value::Null,
        SqlValue::Integer(number) => rusqlite::types::Value::Integer(*number),
        SqlValue::Text(text) => rusqlite::types::Value::Text(text.clone()),
    }).collect();
    let mut statement = connection.prepare(sql)?;
    let rows = statement.query_map(rusqlite::params_from_iter(bound), |row| row.get::<_, String>(0))?;
    rows.collect()
}

/// Every row of a query with the values bound, each read as a `String` and
/// an `i64` from its first two columns, recorded in the trace with the rows
/// when there are. Nothing is stated of the rows.
#[verifier::external_body]
pub(crate) fn query_text_counts_traced(
    connection: &rusqlite::Connection,
    sql: &str,
    values: &Vec<SqlValue>,
    trace: &mut Trace,
) -> (r: Result<Vec<(String, i64)>, rusqlite::Error>)
    ensures
        r is Ok ==> final(trace).events@ == old(trace).events@.push(
            Event::ReadCounts(sql@, values@, pairs_view(r->Ok_0@)),
        ),
        r is Err ==> final(trace).events@ == old(trace).events@,
{
    let bound: Vec<rusqlite::types::Value> = values.iter().map(|value| match value {
        SqlValue::Null => rusqlite::types::Value::Null,
        SqlValue::Integer(number) => rusqlite::types::Value::Integer(*number),
        SqlValue::Text(text) => rusqlite::types::Value::Text(text.clone()),
    }).collect();
    let mut statement = connection.prepare(sql)?;
    let rows = statement.query_map(rusqlite::params_from_iter(bound), |row| Ok((row.get::<_, String>(0)?, row.get::<_, i64>(1)?)))?;
    rows.collect()
}

/// `Connection::query_row` with the values bound, reading the first
/// `columns` columns of the first row, each as an `Option<String>`; `None`
/// when the query returns no row (`QueryReturnedNoRows`). Recorded in the
/// trace with the answer when there is one. Of the row, only its length is
/// stated.
#[verifier::external_body]
pub(crate) fn query_row_texts_traced(
    connection: &rusqlite::Connection,
    sql: &str,
    values: &Vec<SqlValue>,
    columns: usize,
    trace: &mut Trace,
) -> (r: Result<Option<Vec<Option<String>>>, rusqlite::Error>)
    ensures
        r matches Ok(Some(row)) ==> row.len() == columns,
        r is Ok ==> final(trace).events@ == old(trace).events@.push(
            Event::ReadRow(sql@, values@, row_view(r->Ok_0)),
        ),
        r is Err ==> final(trace).events@ == old(trace).events@,
{
    let bound: Vec<rusqlite::types::Value> = values.iter().map(|value| match value {
        SqlValue::Null => rusqlite::types::Value::Null,
        SqlValue::Integer(number) => rusqlite::types::Value::Integer(*number),
        SqlValue::Text(text) => rusqlite::types::Value::Text(text.clone()),
    }).collect();
    let read = connection.query_row(sql, rusqlite::params_from_iter(bound), |row| (0..columns).map(|i| row.get::<_, Option<String>>(i)).collect());
    rusqlite::OptionalExtension::optional(read)
}

/// `Connection::changes`: how many rows the latest `INSERT`, `UPDATE` or
/// `DELETE` on the connection changed (what `execute` itself returns),
/// recorded in the trace. Nothing is stated of the number.
#[verifier::external_body]
pub(crate) fn changes_traced(connection: &rusqlite::Connection, trace: &mut Trace) -> (n: u64)
    ensures
        final(trace).events@ == old(trace).events@.push(Event::Changed(n)),
{
    connection.changes()
}

/// `Connection::last_insert_rowid`: the rowid of the latest successful
/// `INSERT` on the connection. Nothing is stated of it.
#[verifier::external_body]
pub(crate) fn last_insert_rowid(connection: &rusqlite::Connection) -> (rowid: i64) {
    connection.last_insert_rowid()
}

/// `Connection::query_row` reading column 0 of the first row as an `i64`,
/// untraced.
pub(crate) fn query_integer(connection: &rusqlite::Connection, sql: &str) -> (r: Result<
    i64,
    rusqlite::Error,
>) {
    let no_values: Vec<SqlValue> = Vec::new();
    let mut trace = Trace::new();
    query_integer_with_traced(connection, sql, &no_values, &mut trace)
}

/// `Connection::query_row` reading column 0 of the first row as an `i64`,
/// traced.
pub(crate) fn query_integer_traced(connection: &rusqlite::Connection, sql: &str, trace: &mut Trace) -> (r:
    Result<i64, rusqlite::Error>)
    ensures
        r is Ok ==> final(trace).events@ == old(trace).events@.push(
            Event::ReadInteger(sql@, Seq::empty(), r->Ok_0),
        ),
        r is Err ==> final(trace).events@ == old(trace).events@,
{
    let no_values: Vec<SqlValue> = Vec::new();
    let r = query_integer_with_traced(connection, sql, &no_values, trace);
    assert(no_values@ =~= Seq::<SqlValue>::empty());
    r
}

/// `Connection::query_row` reading column 0 of the first row as a `u32`
/// (which fails when the stored integer does not fit), recorded in the trace
/// with the answer when there is one. Nothing is stated of the value.
#[verifier::external_body]
pub(crate) fn query_u32_traced(connection: &rusqlite::Connection, sql: &str, trace: &mut Trace) -> (r:
    Result<u32, rusqlite::Error>)
    ensures
        r is Ok ==> final(trace).events@ == old(trace).events@.push(
            Event::ReadInteger(sql@, Seq::empty(), r->Ok_0 as i64),
        ),
        r is Err ==> final(trace).events@ == old(trace).events@,
{
    connection.query_row(sql, [], |row| row.get::<_, u32>(0))
}

/// `Connection::backup` of the main database into a file at `path`, recorded
/// in the trace as a copy handed to SQLite. Nothing is stated of the outcome:
/// it depends on the disk.
#[verifier::external_body]
pub(crate) fn backup_main_traced(connection: &rusqlite::Connection, path: &str, trace: &mut Trace) -> (r:
    Result<(), rusqlite::Error>)
    ensures
        final(trace).events@ == old(trace).events@.push(Event::Backup(path@)),
{
    connection.backup(rusqlite::MAIN_DB, path, None::<fn(rusqlite::backup::Progress)>)
}

/// `Connection::restore` of the main database from the file at `path`.
/// Nothing is stated: it depends on the disk.
#[verifier::external_body]
pub(crate) fn restore_main(connection: &mut rusqlite::Connection, path: &str) -> (r: Result<
    (),
    rusqlite::Error,
>) {
    connection.restore(rusqlite::MAIN_DB, path, None::<fn(rusqlite::backup::Progress)>)
}

/// `Connection::unchecked_transaction`. Nothing is stated.
#[verifier::external_body]
pub(crate) fn begin(connection: &rusqlite::Connection) -> (r: Result<
    rusqlite::Transaction<'_>,
    rusqlite::Error,
>) {
    connection.unchecked_transaction()
}

/// The connection a transaction runs on (`Transaction` dereferences to it).
#[verifier::external_body]
pub(crate) fn in_transaction<'a>(transaction: &'a rusqlite::Transaction<'_>) -> (connection:
    &'a rusqlite::Connection) {
    transaction
}

/// `Transaction::commit`, recorded in the trace when it succeeds. Nothing is
/// stated of the outcome.
#[verifier::external_body]
pub(crate) fn commit_traced(transaction: rusqlite::Transaction<'_>, trace: &mut Trace) -> (r: Result<
    (),
    rusqlite::Error,
>)
    ensures
        r is Ok ==> final(trace).events@ == old(trace).events@.push(Event::Commit),
        r is Err ==> final(trace).events@ == old(trace).events@,
{
    transaction.commit()
}

/// `Transaction::commit`, untraced.
pub(crate) fn commit(transaction: rusqlite::Transaction<'_>) -> (r: Result<(), rusqlite::Error>) {
    let mut trace = Trace::new();
    commit_traced(transaction, &mut trace)
}

} // verus!
