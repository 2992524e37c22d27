//! The storage itself: opening a database with the guarantees the product
//! needs, migrating it, keeping its search projections whole, and reporting
//! its health.

use vstd::prelude::*;
use crate::clock;
use crate::error::{map_sql_error, CoreError, ErrorCode};
use crate::schema::{self, SCHEMA_VERSION};
use crate::sqlite::{
    self, backups, batches, commits, extends, lemma_extends_refl, lemma_extends_trans, lemma_push, lemma_step,
    Event, Trace,
};
use crate::text;

verus! {

/// Every error the storage reports may be retried exactly when the database
/// was busy.
pub open spec fn well_formed_error(e: CoreError) -> bool {
    e.retryable <==> e.code == ErrorCode::StorageBusy
}

pub open spec fn outcome_well_formed<T>(r: Result<T, CoreError>) -> bool {
    match r {
        Ok(_) => true,
        Err(e) => well_formed_error(e),
    }
}

/// Turns a failure of SQLite into an error of the storage.
pub(crate) fn sql<T>(r: Result<T, rusqlite::Error>) -> (out: Result<T, CoreError>)
    ensures
        outcome_well_formed(out),
        r is Ok <==> out is Ok,
        r is Ok ==> out->Ok_0 == r->Ok_0,
{
    match r {
        Ok(value) => Ok(value),
        Err(error) => Err(map_sql_error(error)),
    }
}

/// Executes a statement with its values, reporting a failure as the storage
/// does; the trace records the statement handed over.
pub fn run(connection: &rusqlite::Connection, statement: &str, values: &Vec<sqlite::SqlValue>, trace: &mut Trace) -> (r:
    Result<usize, CoreError>)
    ensures
        outcome_well_formed(r),
        final(trace).events@ == old(trace).events@.push(Event::Execute(statement@, values@)),
{
    sql(sqlite::execute_traced(connection, statement, values, trace))
}

/// Commits a transaction, reporting a failure as the storage does; the trace
/// records the commit when it happened, and nothing otherwise.
pub fn finish(transaction: rusqlite::Transaction<'_>, trace: &mut Trace) -> (r: Result<(), CoreError>)
    ensures
        outcome_well_formed(r),
        r is Ok ==> final(trace).events@ == old(trace).events@.push(Event::Commit),
        r is Err ==> final(trace).events@ == old(trace).events@,
{
    sql(sqlite::commit_traced(transaction, trace))
}

// ---------------------------------------------------------------------------
// Checks on what a connection reports
// ---------------------------------------------------------------------------

pub open spec fn not_durable_message() -> Seq<char> {
    "O banco local nao abriu com as garantias de durabilidade exigidas."@
}

/// Refuses a connection that does not report WAL, `synchronous=FULL` and
/// enforced foreign keys.
pub fn check_durability(journal: &str, synchronous: i64, foreign_keys: i64) -> (r: Result<
    (),
    CoreError,
>)
    ensures
        r is Ok <==> schema::spec_pragmas_durable(journal@, synchronous as int, foreign_keys as int),
        r is Err ==> r->Err_0.code == ErrorCode::StorageUnavailable && r->Err_0.message@
            == not_durable_message() && !r->Err_0.retryable,
{
    if !schema::pragmas_durable(journal, synchronous, foreign_keys) {
        return Err(
            CoreError::new(
                ErrorCode::StorageUnavailable,
                "O banco local nao abriu com as garantias de durabilidade exigidas.",
                false,
            ),
        );
    }
    Ok(())
}

pub open spec fn integrity_prefix() -> Seq<char> {
    "O banco local falhou na verificacao de integridade: "@
}

/// Refuses a database whose `PRAGMA quick_check` did not answer `ok`.
pub fn check_integrity(result: &str) -> (r: Result<(), CoreError>)
    ensures
        r is Ok <==> result@ == "ok"@,
        r is Err ==> r->Err_0.code == ErrorCode::DataIntegrity && r->Err_0.message@
            == integrity_prefix() + result@ && !r->Err_0.retryable,
{
    if !schema::integrity_ok(result) {
        return Err(
            CoreError::with_message(
                ErrorCode::DataIntegrity,
                text::concatenate("O banco local falhou na verificacao de integridade: ", result),
                false,
            ),
        );
    }
    Ok(())
}

pub open spec fn foreign_keys_off_message() -> Seq<char> {
    "Uma migration deixou as foreign keys desligadas."@
}

/// After migrating: refuses foreign keys left off, and any table that holds
/// more orphan references than before the migration ran.
pub fn check_migration_result(
    foreign_keys: i64,
    before: &Vec<(String, i64)>,
    after: &Vec<(String, i64)>,
) -> (r: Result<(), CoreError>)
    requires
        forall|i: int| 0 <= i < before@.len() ==> #[trigger] before@[i].1 >= 0,
        forall|i: int| 0 <= i < after@.len() ==> #[trigger] after@[i].1 >= 0,
    ensures
        r is Ok <==> foreign_keys == 1 && schema::spec_new_orphans(
            schema::counts_view(before@),
            schema::counts_view(after@),
        ).len() == 0,
        r is Err ==> r->Err_0.code == ErrorCode::DataIntegrity && !r->Err_0.retryable,
        r is Err && foreign_keys != 1 ==> r->Err_0.message@ == foreign_keys_off_message(),
        r is Err && foreign_keys == 1 ==> r->Err_0.message@ == schema::orphan_message(
            schema::spec_new_orphans(schema::counts_view(before@), schema::counts_view(after@)),
        ),
{
    if foreign_keys != 1 {
        return Err(
            CoreError::new(
                ErrorCode::DataIntegrity,
                "Uma migration deixou as foreign keys desligadas.",
                false,
            ),
        );
    }
    let novas = schema::new_orphans(before, after);
    if novas.len() > 0 {
        let message = schema::describe_orphans(&novas);
        return Err(CoreError::with_message(ErrorCode::DataIntegrity, message, false));
    }
    assert(schema::counts_view(novas@).len() == novas@.len());
    Ok(())
}

// ---------------------------------------------------------------------------
// Connection-level steps
// ---------------------------------------------------------------------------

/// The pragmas a fresh connection is configured with.
pub const DURABILITY_PRAGMAS: &'static str = "PRAGMA journal_mode=WAL; PRAGMA synchronous=FULL; PRAGMA foreign_keys=ON; PRAGMA trusted_schema=OFF;";

pub const JOURNAL_MODE_QUERY: &'static str = "PRAGMA journal_mode";

pub const SYNCHRONOUS_QUERY: &'static str = "PRAGMA synchronous";

pub const FOREIGN_KEYS_QUERY: &'static str = "PRAGMA foreign_keys";

pub const QUICK_CHECK_QUERY: &'static str = "PRAGMA quick_check";

pub const CAPTURE_COUNT: &'static str = "SELECT count(*) FROM captures";

pub const USER_VERSION_QUERY: &'static str = "PRAGMA user_version";

/// What a connection that was configured durably shows in the trace: the
/// pragmas handed to SQLite, then the journal mode, durability level and
/// foreign-key enforcement it reported back, and these are WAL, `FULL` and
/// on.
pub open spec fn durable_reported(e: Seq<Event>) -> bool {
    &&& e.len() == 4
    &&& e[0] == Event::Batch(DURABILITY_PRAGMAS@)
    &&& match (e[1], e[2], e[3]) {
        (
            Event::ReadText(q1, journal),
            Event::ReadInteger(q2, v2, synchronous),
            Event::ReadInteger(q3, v3, foreign_keys),
        ) => {
            &&& q1 == JOURNAL_MODE_QUERY@
            &&& q2 == SYNCHRONOUS_QUERY@ && v2.len() == 0
            &&& q3 == FOREIGN_KEYS_QUERY@ && v3.len() == 0
            &&& schema::spec_pragmas_durable(journal, synchronous as int, foreign_keys as int)
        },
        _ => false,
    }
}

/// The events a call added to a trace.
pub open spec fn added(before: Seq<Event>, after: Seq<Event>) -> Seq<Event> {
    after.subrange(before.len() as int, after.len() as int)
}

/// Configures a fresh connection (busy timeout, WAL, `synchronous=FULL`,
/// foreign keys, untrusted schema off) and refuses it unless SQLite reports
/// the first three back: on success the trace shows the pragmas handed over
/// and the durable answers read back.
pub fn configure_connection(connection: &rusqlite::Connection, trace: &mut Trace) -> (r: Result<
    (),
    CoreError,
>)
    ensures
        outcome_well_formed(r),
        extends(final(trace).events@, old(trace).events@),
        r is Ok ==> durable_reported(added(old(trace).events@, final(trace).events@)),
{
    let ghost base = trace.events@;
    proof {
        lemma_extends_refl(base);
    }
    sql(sqlite::busy_timeout(connection, 1000))?;
    let batch = sqlite::execute_batch_traced(connection, DURABILITY_PRAGMAS, trace);
    proof {
        lemma_push(base, Event::Batch(DURABILITY_PRAGMAS@));
    }
    let ghost t1 = trace.events@;
    sql(batch)?;
    let journal_read = sqlite::query_text_traced(connection, JOURNAL_MODE_QUERY, trace);
    proof {
        if journal_read is Ok {
            lemma_push(t1, Event::ReadText(JOURNAL_MODE_QUERY@, journal_read->Ok_0@));
            lemma_extends_trans(trace.events@, t1, base);
        }
    }
    let journal = sql(journal_read)?;
    let ghost t2 = trace.events@;
    let synchronous_read = sqlite::query_integer_traced(connection, SYNCHRONOUS_QUERY, trace);
    proof {
        if synchronous_read is Ok {
            lemma_push(t2, Event::ReadInteger(SYNCHRONOUS_QUERY@, Seq::empty(), synchronous_read->Ok_0));
            lemma_extends_trans(trace.events@, t2, base);
        }
    }
    let synchronous = sql(synchronous_read)?;
    let ghost t3 = trace.events@;
    let foreign_keys_read = sqlite::query_integer_traced(connection, FOREIGN_KEYS_QUERY, trace);
    proof {
        if foreign_keys_read is Ok {
            lemma_push(t3, Event::ReadInteger(FOREIGN_KEYS_QUERY@, Seq::empty(), foreign_keys_read->Ok_0));
            lemma_extends_trans(trace.events@, t3, base);
        }
    }
    let foreign_keys = sql(foreign_keys_read)?;
    let checked = check_durability(journal.as_str(), synchronous, foreign_keys);
    proof {
        assert(added(base, trace.events@) =~= seq![
            Event::Batch(DURABILITY_PRAGMAS@),
            Event::ReadText(JOURNAL_MODE_QUERY@, journal@),
            Event::ReadInteger(SYNCHRONOUS_QUERY@, Seq::empty(), synchronous),
            Event::ReadInteger(FOREIGN_KEYS_QUERY@, Seq::empty(), foreign_keys),
        ]);
    }
    checked
}

/// Runs `PRAGMA quick_check` and refuses a database that does not answer
/// `ok`, through `check_integrity`: on success the trace shows that answer.
pub fn verify_integrity(connection: &rusqlite::Connection, trace: &mut Trace) -> (r: Result<(), CoreError>)
    ensures
        outcome_well_formed(r),
        extends(final(trace).events@, old(trace).events@),
        batches(final(trace).events@) == batches(old(trace).events@),
        backups(final(trace).events@) == backups(old(trace).events@),
        r is Ok ==> final(trace).events@ == old(trace).events@.push(
            Event::ReadText(QUICK_CHECK_QUERY@, "ok"@),
        ),
        final(trace).events@.len() <= old(trace).events@.len() + 1,
{
    let ghost base = trace.events@;
    let read = sqlite::query_text_traced(connection, QUICK_CHECK_QUERY, trace);
    proof {
        if read is Ok {
            lemma_push(base, Event::ReadText(QUICK_CHECK_QUERY@, read->Ok_0@));
        } else {
            assert(trace.events@.subrange(0, base.len() as int) =~= base);
        }
    }
    let result = sql(read)?;
    check_integrity(result.as_str())
}

pub const ORPHAN_COUNTS_QUERY: &'static str = "SELECT \"table\", count(*) FROM pragma_foreign_key_check GROUP BY \"table\" ORDER BY \"table\"";

/// Rows of counts with a negative count read as zero.
pub open spec fn clamped(rows: Seq<(Seq<char>, i64)>) -> Seq<(Seq<char>, int)> {
    rows.map_values(
        |p: (Seq<char>, i64)|
            (p.0, if p.1 < 0 {
                0int
            } else {
                p.1 as int
            }),
    )
}

/// What a passed orphan guard leaves at the end of a trace: foreign keys
/// read back on, then the orphan counts read, and no table among them holds
/// more orphans than `antes`.
pub open spec fn guarded(e: Seq<Event>, antes: Seq<(Seq<char>, int)>) -> bool {
    &&& e.len() >= 2
    &&& e[e.len() - 2] == Event::ReadInteger(FOREIGN_KEYS_QUERY@, Seq::empty(), 1)
    &&& e.last() matches Event::ReadCounts(q, v, rows) && q == ORPHAN_COUNTS_QUERY@ && v.len() == 0
        && schema::spec_new_orphans(antes, clamped(rows)).len() == 0
}

/// How many orphan references each table holds (what `PRAGMA
/// foreign_key_check` finds, counted per table), ordered by table name: the
/// rows SQLite answered, as the trace shows them, with a negative count (which
/// `count(*)` never gives) read as zero.
pub fn contagem_de_orfas(connection: &rusqlite::Connection, trace: &mut Trace) -> (r: Result<
    Vec<(String, i64)>,
    CoreError,
>)
    ensures
        outcome_well_formed(r),
        r is Ok ==> forall|i: int| 0 <= i < r->Ok_0@.len() ==> #[trigger] r->Ok_0@[i].1 >= 0,
        r is Ok ==> {
            &&& final(trace).events@.len() == old(trace).events@.len() + 1
            &&& extends(final(trace).events@, old(trace).events@)
            &&& final(trace).events@.last() matches Event::ReadCounts(q, v, rows) && q == ORPHAN_COUNTS_QUERY@
                && v.len() == 0 && schema::counts_view(r->Ok_0@) == clamped(rows)
        },
        r is Err ==> final(trace).events@ == old(trace).events@,
{
    let ghost base = trace.events@;
    let no_values: Vec<sqlite::SqlValue> = Vec::new();
    let read = sqlite::query_text_counts_traced(connection, ORPHAN_COUNTS_QUERY, &no_values, trace);
    proof {
        if read is Ok {
            lemma_push(base, Event::ReadCounts(ORPHAN_COUNTS_QUERY@, no_values@, sqlite::pairs_view(read->Ok_0@)));
        }
    }
    let found = sql(read)?;
    let ghost rows = sqlite::pairs_view(found@);
    let mut counts: Vec<(String, i64)> = Vec::new();
    let mut i: usize = 0;
    while i < found.len()
        invariant
            i <= found@.len(),
            rows == sqlite::pairs_view(found@),
            counts@.len() == i,
            forall|k: int| 0 <= k < i ==> #[trigger] counts@[k].1 >= 0,
            schema::counts_view(counts@) == clamped(rows.take(i as int)),
        decreases found@.len() - i,
    {
        let count: i64 = if found[i].1 < 0 {
            0
        } else {
            found[i].1
        };
        let ghost before = counts@;
        counts.push((found[i].0.clone(), count));
        proof {
            assert(rows.take(i + 1) =~= rows.take(i as int).push(rows[i as int]));
            assert(schema::counts_view(counts@) =~= schema::counts_view(before).push((found@[i as int].0@, count as int)));
            assert(clamped(rows.take(i + 1)) =~= clamped(rows.take(i as int)).push(clamped(rows.take(i + 1))[i as int]));
        }
        i = i + 1;
    }
    proof {
        assert(rows.take(found@.len() as int) =~= rows);
    }
    Ok(counts)
}

/// After a migration: foreign keys must still be on, and no table may hold
/// more orphan references than `antes` recorded. The trace shows the
/// foreign-key state read back and, when it is on, the counts read; the
/// result is what `check_migration_result` says of them.
pub fn verify_foreign_keys(connection: &rusqlite::Connection, antes: &Vec<(String, i64)>, trace: &mut Trace) -> (r:
    Result<(), CoreError>)
    requires
        forall|i: int| 0 <= i < antes@.len() ==> #[trigger] antes@[i].1 >= 0,
    ensures
        outcome_well_formed(r),
        extends(final(trace).events@, old(trace).events@),
        batches(final(trace).events@) == batches(old(trace).events@),
        backups(final(trace).events@) == backups(old(trace).events@),
        r is Ok <==> final(trace).events@.len() == old(trace).events@.len() + 2 && guarded(
            final(trace).events@,
            schema::counts_view(antes@),
        ),
        ({
            let e = final(trace).events@;
            &&& e.len() == old(trace).events@.len() + 1
            &&& e.last() matches Event::ReadInteger(q, v, enabled) && q == FOREIGN_KEYS_QUERY@ && enabled != 1
        }) ==> r is Err && r->Err_0.code == ErrorCode::DataIntegrity && r->Err_0.message@
            == foreign_keys_off_message(),
        ({
            let e = final(trace).events@;
            &&& e.len() == old(trace).events@.len() + 2
            &&& e.last() matches Event::ReadCounts(q, v, rows) && schema::spec_new_orphans(
                schema::counts_view(antes@),
                clamped(rows),
            ).len() > 0
        }) ==> r is Err && r->Err_0.code == ErrorCode::DataIntegrity,
{
    let ghost base = trace.events@;
    proof {
        lemma_extends_refl(base);
    }
    let read = sqlite::query_integer_traced(connection, FOREIGN_KEYS_QUERY, trace);
    proof {
        if read is Ok {
            lemma_push(base, Event::ReadInteger(FOREIGN_KEYS_QUERY@, Seq::empty(), read->Ok_0));
        }
    }
    let enabled = sql(read)?;
    let ghost t1 = trace.events@;
    if enabled != 1 {
        let empty: Vec<(String, i64)> = Vec::new();
        return check_migration_result(enabled, antes, &empty);
    }
    let counted = contagem_de_orfas(connection, trace);
    proof {
        if counted is Ok {
            lemma_push(t1, trace.events@.last());
            assert(trace.events@ =~= t1.push(trace.events@.last()));
            lemma_extends_trans(trace.events@, t1, base);
        }
    }
    let depois = counted?;
    check_migration_result(enabled, antes, &depois)
}

/// The file name of the copy taken before migrating a database of `version`.
pub open spec fn spec_snapshot_name(version: nat, timestamp: int) -> Seq<char> {
    "pre-migration-v"@ + text::spec_decimal(version) + "-"@ + text::spec_signed_decimal(timestamp)
        + ".db"@
}

proof fn lemma_snapshot_name_relative(version: nat, timestamp: int)
    ensures
        relative_name(spec_snapshot_name(version, timestamp)),
{
    reveal_strlit("pre-migration-v");
    let name = spec_snapshot_name(version, timestamp);
    assert(name[0] == 'p');
    assert(name[1] == 'r');
}

/// Names the copy taken before migrating a database of `version` at the
/// given Unix time.
pub fn pre_migration_snapshot_name(version: u32, timestamp: i64) -> (name: String)
    ensures
        name@ == spec_snapshot_name(version as nat, timestamp as int),
{
    let mut name = String::from_str("pre-migration-v");
    let v = text::decimal(version as u64);
    name.append(v.as_str());
    name.append("-");
    let t = text::signed_decimal(timestamp);
    name.append(t.as_str());
    name.append(".db");
    name
}

/// `s` ends with `suffix`.
pub open spec fn ends_with(s: Seq<char>, suffix: Seq<char>) -> bool {
    suffix.len() <= s.len() && s.subrange(s.len() - suffix.len(), s.len() as int) == suffix
}

/// A file name that `Path` reads as relative on every platform: not empty,
/// not starting with a separator, and without a drive prefix.
pub open spec fn relative_name(name: Seq<char>) -> bool {
    &&& name.len() >= 2
    &&& name[0] != '/' && name[0] != '\\'
    &&& name[1] != ':'
}

/// `Path::join` of a directory and a relative file name, displayed as text:
/// as `PathBuf::push` documents, a relative name is appended to the
/// directory, after a separator when one is needed, so the path ends with
/// the name. Nothing is stated of the separator the platform uses.
#[verifier::external_body]
fn join_path(directory: &str, name: &str) -> (path: String)
    requires
        relative_name(name@),
    ensures
        ends_with(path@, name@),
{
    std::path::Path::new(directory).join(name).display().to_string()
}

/// Copies the database into the backup directory before it is migrated, and
/// checks that the copy is whole: on success the trace shows the copy and
/// the integrity check of it answering `ok`.
fn create_pre_migration_snapshot(
    connection: &rusqlite::Connection,
    backup_directory: &str,
    version: u32,
    trace: &mut Trace,
) -> (r: Result<(), CoreError>)
    ensures
        outcome_well_formed(r),
        extends(final(trace).events@, old(trace).events@),
        batches(final(trace).events@) == batches(old(trace).events@),
        r is Ok ==> {
            let e = final(trace).events@;
            let b = old(trace).events@.len() as int;
            &&& e.len() == b + 2
            &&& e[b] matches Event::Backup(path) && exists|t: int| ends_with(path, #[trigger] spec_snapshot_name(version as nat, t))
            &&& e[b + 1] == Event::ReadText(QUICK_CHECK_QUERY@, "ok"@)
            &&& backups(e).len() == backups(old(trace).events@).len() + 1
        },
{
    let ghost base = trace.events@;
    let timestamp = clock::unix_timestamp_now();
    let name = pre_migration_snapshot_name(version, timestamp);
    proof {
        lemma_snapshot_name_relative(version as nat, timestamp as int);
    }
    let destination = join_path(backup_directory, name.as_str());
    let copied = sqlite::backup_main_traced(connection, destination.as_str(), trace);
    proof {
        lemma_push(base, Event::Backup(destination@));
    }
    let ghost t1 = trace.events@;
    sql(copied)?;
    let snapshot = sql(sqlite::open(destination.as_str()))?;
    let checked = verify_integrity(&snapshot, trace);
    proof {
        lemma_extends_trans(trace.events@, t1, base);
        if checked is Ok {
            lemma_push(t1, Event::ReadText(QUICK_CHECK_QUERY@, "ok"@));
        }
    }
    checked
}

/// The copy taken before migrating a database of `version`, as the trace
/// shows it from position `i` on: the copy, to a file named by
/// `spec_snapshot_name`, its integrity check answering `ok`, and the orphan
/// counts read before any script ran.
pub open spec fn snapshot_checked(e: Seq<Event>, i: int, version: nat) -> bool {
    &&& e.len() > i + 2
    &&& e[i] matches Event::Backup(path) && exists|t: int| ends_with(path, #[trigger] spec_snapshot_name(version, t))
    &&& e[i + 1] == Event::ReadText(QUICK_CHECK_QUERY@, "ok"@)
    &&& e[i + 2] matches Event::ReadCounts(q, v, rows) && q == ORPHAN_COUNTS_QUERY@ && v.len() == 0
}

/// The orphan counts a migration from `version` answers against: those read
/// before the scripts when a copy was taken, none otherwise.
pub open spec fn baseline(e: Seq<Event>, b: int, version: i64) -> Seq<(Seq<char>, int)> {
    if schema::snapshot_needed(version as nat) {
        match e[b + 3] {
            Event::ReadCounts(q, v, rows) => clamped(rows),
            _ => Seq::empty(),
        }
    } else {
        Seq::empty()
    }
}

/// What migrating shows in the trace, after the events of `before`: first
/// the read of the version the database was at, which is at most
/// `SCHEMA_VERSION`; then, as the only batches, the scripts from that
/// version on, in order (`migrations[n - 1]` is migration `n`); one copy of
/// the database exactly when `schema::snapshot_needed` asks for it, checked
/// whole before any script ran; and, when any script ran, at the end the
/// orphan guard passed against the counts read before the scripts.
pub open spec fn migrated(before: Seq<Event>, after: Seq<Event>, migrations: Seq<Seq<char>>) -> bool {
    let b = before.len() as int;
    &&& extends(after, before)
    &&& after.len() > b
    &&& match after[b] {
        Event::ReadInteger(query, values, version) => {
            &&& query == USER_VERSION_QUERY@
            &&& values.len() == 0
            &&& 0 <= version <= SCHEMA_VERSION
            &&& batches(after) == batches(before) + migrations.subrange(
                version as int,
                SCHEMA_VERSION as int,
            )
            &&& backups(after).len() == backups(before).len() + (if schema::snapshot_needed(
                version as nat,
            ) {
                1int
            } else {
                0int
            })
            &&& schema::snapshot_needed(version as nat) ==> snapshot_checked(after, b + 1, version as nat)
            &&& version < SCHEMA_VERSION ==> guarded(after, baseline(after, b, version))
        },
        _ => false,
    }
}

/// Brings the database to `SCHEMA_VERSION`: refuses one written by a newer
/// build (`StorageUnavailable`, before any copy or script), copies an older
/// populated one first, runs (in order) every script of `migrations` the
/// database has not seen (`migrations[n - 1]` is migration `n`), and then
/// refuses the result if foreign keys were left off or any table gained
/// orphan references. On success the trace shows what `migrated`
/// describes.
pub fn migrate(
    connection: &rusqlite::Connection,
    backup_directory: &str,
    migrations: &Vec<String>,
    trace: &mut Trace,
) -> (r: Result<(), CoreError>)
    requires
        migrations@.len() == SCHEMA_VERSION,
    ensures
        outcome_well_formed(r),
        extends(final(trace).events@, old(trace).events@),
        r is Ok ==> migrated(
            old(trace).events@,
            final(trace).events@,
            text::string_views(migrations@),
        ),
        ({
            let e = final(trace).events@;
            let b = old(trace).events@.len() as int;
            &&& e.len() > b
            &&& e[b] matches Event::ReadInteger(q, v, version) && q == USER_VERSION_QUERY@ && version
                > SCHEMA_VERSION
        }) ==> r is Err && r->Err_0.code == ErrorCode::StorageUnavailable && r->Err_0.message@
            == schema::newer_database_message() && final(trace).events@.len() == old(
            trace,
        ).events@.len() + 1,
{
    let ghost base = trace.events@;
    let ghost b = base.len() as int;
    let ghost scripts = text::string_views(migrations@);
    let read = sqlite::query_u32_traced(connection, USER_VERSION_QUERY, trace);
    proof {
        if read is Ok {
            lemma_push(base, Event::ReadInteger(USER_VERSION_QUERY@, Seq::empty(), read->Ok_0 as i64));
        } else {
            assert(trace.events@.subrange(0, base.len() as int) =~= base);
        }
    }
    let current = sql(read)?;
    let ghost after_read = trace.events@;
    let ghost first = Event::ReadInteger(USER_VERSION_QUERY@, Seq::empty(), current as i64);
    let plan = match schema::plan_migrations(current) {
        Ok(plan) => plan,
        Err(e) => return Err(e),
    };
    let mut orfas_antes: Vec<(String, i64)> = Vec::new();
    if plan.snapshot {
        let copied = create_pre_migration_snapshot(connection, backup_directory, current, trace);
        proof {
            lemma_extends_trans(trace.events@, after_read, base);
        }
        copied?;
        let ghost t_snap = trace.events@;
        let counted = contagem_de_orfas(connection, trace);
        proof {
            if counted is Ok {
                assert(trace.events@ =~= t_snap.push(trace.events@.last()));
                lemma_push(t_snap, trace.events@.last());
                lemma_extends_trans(trace.events@, t_snap, base);
                lemma_extends_trans(trace.events@, t_snap, after_read);
                crate::sqlite::lemma_kept_at(trace.events@, t_snap, b + 1);
                crate::sqlite::lemma_kept_at(trace.events@, t_snap, b + 2);
            }
        }
        orfas_antes = counted?;
    } else {
        proof {
            lemma_extends_refl(after_read);
        }
    }
    let ghost after_snapshot = trace.events@;
    proof {
        assert(after_read[b] == first);
        lemma_extends_trans(after_snapshot, after_read, base);
        lemma_extends_refl(after_snapshot);
        crate::sqlite::lemma_kept_at(after_snapshot, after_read, b);
        if !plan.snapshot {
            assert(after_snapshot =~= after_read);
            assert(schema::counts_view(orfas_antes@) =~= Seq::<(Seq<char>, int)>::empty());
        }
        assert(batches(after_snapshot) =~= batches(base));
        assert(scripts.subrange(current as int, current as int) =~= Seq::<Seq<char>>::empty());
        assert(batches(after_snapshot) + scripts.subrange(current as int, current as int) =~= batches(
            after_snapshot,
        ));
        assert(schema::counts_view(orfas_antes@) == baseline(after_snapshot, b, current as i64));
    }
    let mut n: u32 = plan.first;
    while n <= SCHEMA_VERSION
        invariant
            migrations@.len() == SCHEMA_VERSION,
            scripts == text::string_views(migrations@),
            current <= SCHEMA_VERSION,
            current + 1 <= n <= SCHEMA_VERSION + 1,
            extends(trace.events@, after_snapshot),
            extends(after_snapshot, base),
            base == old(trace).events@,
            batches(trace.events@) == batches(after_snapshot) + scripts.subrange(
                current as int,
                n - 1,
            ),
            backups(trace.events@) == backups(after_snapshot),
            b == base.len(),
            first == Event::ReadInteger(USER_VERSION_QUERY@, Seq::empty(), current as i64),
            trace.events@.len() > b,
            trace.events@[b] == first,
        decreases SCHEMA_VERSION + 1 - n,
    {
        let index = (n - 1) as usize;
        let ghost before_batch = trace.events@;
        let ran = sqlite::execute_batch_traced(connection, migrations[index].as_str(), trace);
        proof {
            lemma_push(before_batch, Event::Batch(migrations@[index as int]@));
            lemma_extends_trans(trace.events@, before_batch, after_snapshot);
            lemma_extends_trans(trace.events@, after_snapshot, base);
            assert(scripts.subrange(current as int, n as int) =~= scripts.subrange(
                current as int,
                n - 1,
            ).push(migrations@[index as int]@));
            assert(trace.events@[b] == before_batch[b]);
        }
        sql(ran)?;
        n = n + 1;
    }
    let ghost after_scripts = trace.events@;
    proof {
        lemma_extends_trans(trace.events@, after_snapshot, base);
    }
    if current < SCHEMA_VERSION {
        let guard = verify_foreign_keys(connection, &orfas_antes, trace);
        proof {
            lemma_extends_trans(trace.events@, after_scripts, base);
        }
        guard?;
    }
    proof {
        let e = trace.events@;
        if current >= SCHEMA_VERSION {
            lemma_extends_refl(e);
        }
        lemma_extends_trans(e, after_scripts, base);
        lemma_extends_trans(e, after_scripts, after_snapshot);
        crate::sqlite::lemma_kept_at(e, after_snapshot, b);
        if plan.snapshot {
            crate::sqlite::lemma_kept_at(e, after_snapshot, b + 1);
            crate::sqlite::lemma_kept_at(e, after_snapshot, b + 2);
            crate::sqlite::lemma_kept_at(e, after_snapshot, b + 3);
        }
        assert(baseline(e, b, current as i64) == baseline(after_snapshot, b, current as i64));
    }
    Ok(())
}

/// Rebuilds every full-text projection that no longer holds one row per row
/// of its table.
pub fn ensure_search_projection(connection: &rusqlite::Connection) -> (r: Result<(), CoreError>)
    ensures
        outcome_well_formed(r),
{
    let pairs = schema::search_projections();
    let mut i: usize = 0;
    while i < pairs.len()
        decreases pairs.len() - i,
    {
        let (source, projection) = pairs[i];
        let count_source = text::concatenate("SELECT count(*) FROM ", source);
        let source_count = sql(sqlite::query_integer(connection, count_source.as_str()))?;
        let count_search = text::concatenate("SELECT count(*) FROM ", projection);
        let search_count = sql(sqlite::query_integer(connection, count_search.as_str()))?;
        if schema::projection_needs_rebuild(source_count, search_count) {
            let mut rebuild = text::concatenate("INSERT INTO ", projection);
            rebuild.append("(");
            rebuild.append(projection);
            rebuild.append(") VALUES('rebuild')");
            let no_values: Vec<sqlite::SqlValue> = Vec::new();
            sql(sqlite::execute(connection, rebuild.as_str(), &no_values))?;
        }
        i = i + 1;
    }
    Ok(())
}

/// The statement that rebuilds a full-text projection.
pub open spec fn rebuild_statement(projection: Seq<char>) -> Seq<char> {
    "INSERT INTO "@ + projection + "("@ + projection + ") VALUES('rebuild')"@
}

/// The read of how many rows a table holds.
pub open spec fn count_statement(table: Seq<char>) -> Seq<char> {
    "SELECT count(*) FROM "@ + table
}

/// Rebuilds a full-text projection in one transaction and returns how many
/// rows it holds afterwards: on success the trace shows the rebuild, the
/// count read (which is the result) and the commit; on failure nothing was
/// committed.
pub fn rebuild_projection(connection: &rusqlite::Connection, projection: &str, trace: &mut Trace) -> (r: Result<
    usize,
    CoreError,
>)
    ensures
        outcome_well_formed(r),
        extends(final(trace).events@, old(trace).events@),
        r is Err ==> commits(final(trace).events@) == commits(old(trace).events@),
        r is Ok ==> {
            let e = final(trace).events@;
            let b = old(trace).events@.len() as int;
            &&& e.len() == b + 3
            &&& e[b] == Event::Execute(rebuild_statement(projection@), Seq::empty())
            &&& e[b + 1] matches Event::ReadInteger(q, v, count) && q == count_statement(projection@)
                && v.len() == 0 && r->Ok_0 == count as usize
            &&& e[b + 2] is Commit
        },
{
    let ghost base = trace.events@;
    proof {
        lemma_extends_refl(base);
    }
    let transaction = sql(sqlite::begin(connection))?;
    let inside = sqlite::in_transaction(&transaction);
    let no_values: Vec<sqlite::SqlValue> = Vec::new();
    let mut rebuild = text::concatenate("INSERT INTO ", projection);
    rebuild.append("(");
    rebuild.append(projection);
    rebuild.append(") VALUES('rebuild')");
    let done = run(inside, rebuild.as_str(), &no_values, trace);
    proof {
        lemma_step(base, base, Event::Execute(rebuild@, no_values@));
        assert(no_values@ =~= Seq::<sqlite::SqlValue>::empty());
        assert(rebuild@ =~= rebuild_statement(projection@));
    }
    done?;
    let ghost t1 = trace.events@;
    let count_sql = text::concatenate("SELECT count(*) FROM ", projection);
    let read = sqlite::query_integer_traced(inside, count_sql.as_str(), trace);
    proof {
        if read is Ok {
            lemma_step(base, t1, Event::ReadInteger(count_sql@, Seq::empty(), read->Ok_0));
        }
    }
    let count = sql(read)?;
    let ghost t2 = trace.events@;
    let committed = finish(transaction, trace);
    proof {
        if committed is Ok {
            lemma_push(t2, Event::Commit);
            lemma_extends_trans(trace.events@, t2, base);
        }
    }
    committed?;
    Ok(count as usize)
}

/// Rebuilds the capture search projection; returns how many rows it holds,
/// as `rebuild_projection` reports it.
pub fn rebuild_search_projection(connection: &rusqlite::Connection, trace: &mut Trace) -> (r: Result<
    usize,
    CoreError,
>)
    ensures
        outcome_well_formed(r),
        extends(final(trace).events@, old(trace).events@),
        r is Err ==> commits(final(trace).events@) == commits(old(trace).events@),
        r is Ok ==> {
            let e = final(trace).events@;
            let b = old(trace).events@.len() as int;
            &&& e.len() == b + 3
            &&& e[b] == Event::Execute(rebuild_statement("capture_search"@), Seq::empty())
            &&& e[b + 1] matches Event::ReadInteger(q, v, count) && q == count_statement("capture_search"@)
                && r->Ok_0 == count as usize
            &&& e[b + 2] is Commit
        },
{
    rebuild_projection(connection, "capture_search", trace)
}

// ---------------------------------------------------------------------------
// Health
// ---------------------------------------------------------------------------

/// What the product shows about the local database.
#[derive(Debug)]
pub struct StorageHealth {
    pub database_path: String,
    pub schema_version: u32,
    pub journal_mode: String,
    pub synchronous: String,
    pub integrity: String,
}

impl StorageHealth {
    /// The health report for what the database answered.
    pub fn from_pragmas(
        database_path: String,
        schema_version: u32,
        journal_mode: String,
        synchronous: i64,
        integrity: String,
    ) -> (h: StorageHealth)
        ensures
            h.database_path@ == database_path@,
            h.schema_version == schema_version,
            h.journal_mode@ == journal_mode@,
            h.synchronous@ == schema::spec_synchronous_name(synchronous as int),
            h.integrity@ == integrity@,
    {
        StorageHealth {
            database_path,
            schema_version,
            journal_mode,
            synchronous: String::from_str(schema::synchronous_name(synchronous)),
            integrity,
        }
    }
}

/// The steps every opening takes on a fresh trace, in order: configure the
/// connection, check integrity, migrate.
fn open_steps(
    connection: &rusqlite::Connection,
    backup_directory: &str,
    migrations: &Vec<String>,
    trace: &mut Trace,
) -> (r: Result<(), CoreError>)
    requires
        migrations@.len() == SCHEMA_VERSION,
        old(trace).events@.len() == 0,
    ensures
        outcome_well_formed(r),
        r is Ok ==> opened_well(final(trace).events@, text::string_views(migrations@)),
{
    let ghost t0 = trace.events@;
    configure_connection(connection, trace)?;
    let ghost t4 = trace.events@;
    verify_integrity(connection, trace)?;
    let ghost t5 = trace.events@;
    migrate(connection, backup_directory, migrations, trace)?;
    proof {
        assert(added(t0, t4) =~= t4);
        assert(t4.len() == 4);
        assert(t5.subrange(0, 4) =~= t4);
        let e = trace.events@;
        assert(e.subrange(0, 5) =~= t5);
        assert(e.subrange(0, 4) =~= t4);
        assert(e[4] == t5[4]);
    }
    Ok(())
}

// ---------------------------------------------------------------------------
// The storage
// ---------------------------------------------------------------------------

/// The local database of the product and where its backups go.
pub struct SqliteStorage {
    connection: rusqlite::Connection,
    database_path: String,
    backup_directory: String,
    opening: Trace,
}

/// What a well-done opening shows in its trace: a durably configured
/// connection, an integrity check that answered `ok`, and then the migration
/// that `migrated` describes.
pub open spec fn opened_well(events: Seq<Event>, migrations: Seq<Seq<char>>) -> bool {
    &&& events.len() >= 5
    &&& durable_reported(events.subrange(0, 4))
    &&& events[4] == Event::ReadText(QUICK_CHECK_QUERY@, "ok"@)
    &&& migrated(events.subrange(0, 5), events, migrations)
}

impl SqliteStorage {
    pub closed spec fn spec_database_path(&self) -> Seq<char> {
        self.database_path@
    }

    pub closed spec fn spec_backup_directory(&self) -> Seq<char> {
        self.backup_directory@
    }

    /// The exchanges with SQLite of the latest opening (or restore).
    pub closed spec fn spec_opening(&self) -> Seq<Event> {
        self.opening.events@
    }

    /// Opens the database at `database_path` (whose directory, like
    /// `backup_directory`, must exist): configures the connection, checks
    /// integrity, migrates with `migrations`, and rebuilds any search
    /// projection that drifted.
    pub fn open(database_path: &str, backup_directory: &str, migrations: &Vec<String>) -> (r:
        Result<SqliteStorage, CoreError>)
        requires
            migrations@.len() == SCHEMA_VERSION,
        ensures
            outcome_well_formed(r),
            r is Ok ==> r->Ok_0.spec_database_path() == database_path@
                && r->Ok_0.spec_backup_directory() == backup_directory@,
            r is Ok ==> opened_well(r->Ok_0.spec_opening(), text::string_views(migrations@)),
    {
        let connection = sql(sqlite::open(database_path))?;
        let mut trace = Trace::new();
        let opening = open_steps(&connection, backup_directory, migrations, &mut trace);
        opening?;
        ensure_search_projection(&connection)?;
        Ok(
            SqliteStorage {
                connection,
                database_path: String::from_str(database_path),
                backup_directory: String::from_str(backup_directory),
                opening: trace,
            },
        )
    }

    pub closed spec fn spec_connection(&self) -> rusqlite::Connection {
        self.connection
    }

    /// The connection, for the repositories of the product: the storage's
    /// own.
    pub fn connection(&self) -> (c: &rusqlite::Connection)
        ensures
            *c == self.spec_connection(),
    {
        &self.connection
    }

    /// Where the database lives.
    pub fn database_path(&self) -> (p: &str)
        ensures
            p@ == self.spec_database_path(),
    {
        self.database_path.as_str()
    }

    /// Where backups go.
    pub fn backup_directory(&self) -> (p: &str)
        ensures
            p@ == self.spec_backup_directory(),
    {
        self.backup_directory.as_str()
    }

    /// What the database reports of itself: its path, the version its schema
    /// is at, its journal mode, its durability level by name and the answer
    /// of its integrity check. The trace shows the four reads, in that order,
    /// and the report holds exactly what they answered.
    pub fn health(&self, trace: &mut Trace) -> (r: Result<StorageHealth, CoreError>)
        ensures
            outcome_well_formed(r),
            extends(final(trace).events@, old(trace).events@),
            r is Ok ==> {
                let h = r->Ok_0;
                let e = added(old(trace).events@, final(trace).events@);
                &&& h.database_path@ == self.spec_database_path()
                &&& e.len() == 4
                &&& e[0] == Event::ReadText(JOURNAL_MODE_QUERY@, h.journal_mode@)
                &&& e[1] matches Event::ReadInteger(q, v, level) && q == SYNCHRONOUS_QUERY@ && v.len() == 0
                    && h.synchronous@ == schema::spec_synchronous_name(level as int)
                &&& e[2] == Event::ReadInteger(USER_VERSION_QUERY@, Seq::empty(), h.schema_version as i64)
                &&& e[3] == Event::ReadText(QUICK_CHECK_QUERY@, h.integrity@)
            },
    {
        let ghost base = trace.events@;
        proof {
            lemma_extends_refl(base);
        }
        let r0 = sqlite::query_text_traced(&self.connection, JOURNAL_MODE_QUERY, trace);
        proof {
            if r0 is Ok {
                lemma_push(base, Event::ReadText(JOURNAL_MODE_QUERY@, r0->Ok_0@));
            }
        }
        let journal_mode = sql(r0)?;
        let ghost t1 = trace.events@;
        let r1 = sqlite::query_integer_traced(&self.connection, SYNCHRONOUS_QUERY, trace);
        proof {
            if r1 is Ok {
                lemma_push(t1, Event::ReadInteger(SYNCHRONOUS_QUERY@, Seq::empty(), r1->Ok_0));
                lemma_extends_trans(trace.events@, t1, base);
            }
        }
        let synchronous = sql(r1)?;
        let ghost t2 = trace.events@;
        let r2 = sqlite::query_u32_traced(&self.connection, USER_VERSION_QUERY, trace);
        proof {
            if r2 is Ok {
                lemma_push(t2, Event::ReadInteger(USER_VERSION_QUERY@, Seq::empty(), r2->Ok_0 as i64));
                lemma_extends_trans(trace.events@, t2, base);
            }
        }
        let schema_version = sql(r2)?;
        let ghost t3 = trace.events@;
        let r3 = sqlite::query_text_traced(&self.connection, QUICK_CHECK_QUERY, trace);
        proof {
            if r3 is Ok {
                lemma_push(t3, Event::ReadText(QUICK_CHECK_QUERY@, r3->Ok_0@));
                lemma_extends_trans(trace.events@, t3, base);
            }
        }
        let integrity = sql(r3)?;
        let h = StorageHealth::from_pragmas(
            self.database_path.clone(),
            schema_version,
            journal_mode,
            synchronous,
            integrity,
        );
        proof {
            assert(added(base, trace.events@) =~= seq![
                Event::ReadText(JOURNAL_MODE_QUERY@, h.journal_mode@),
                Event::ReadInteger(SYNCHRONOUS_QUERY@, Seq::empty(), synchronous),
                Event::ReadInteger(USER_VERSION_QUERY@, Seq::empty(), schema_version as i64),
                Event::ReadText(QUICK_CHECK_QUERY@, h.integrity@),
            ]);
        }
        Ok(h)
    }

    /// Copies the whole database into a file at `destination`, as a backup
    /// archive needs it: the trace shows that one copy.
    pub fn snapshot_to(&self, destination: &str, trace: &mut Trace) -> (r: Result<(), CoreError>)
        ensures
            outcome_well_formed(r),
            final(trace).events@ == old(trace).events@.push(Event::Backup(destination@)),
    {
        sql(sqlite::backup_main_traced(&self.connection, destination, trace))
    }

    /// How many captures the database holds, as the backup manifest records:
    /// what the trace shows the count read answered.
    pub fn capture_count(&self, trace: &mut Trace) -> (r: Result<u64, CoreError>)
        ensures
            outcome_well_formed(r),
            r is Ok ==> {
                &&& sqlite::one_more(old(trace).events@, final(trace).events@)
                &&& final(trace).events@.last() matches Event::ReadInteger(q, v, n) && q == CAPTURE_COUNT@
                    && v.len() == 0 && r->Ok_0 == n as u64
            },
    {
        let ghost base = trace.events@;
        let read = sqlite::query_integer_traced(&self.connection, CAPTURE_COUNT, trace);
        proof {
            if read is Ok {
                assert(trace.events@.drop_last() =~= base);
            }
        }
        let count = sql(read)?;
        Ok(count as u64)
    }

    /// Replaces the database with the one in the file at `source` (already
    /// validated), then treats it as freshly opened: configuration,
    /// integrity, migrations and search projections.
    pub fn restore_database(&mut self, source: &str, migrations: &Vec<String>) -> (r: Result<
        (),
        CoreError,
    >)
        requires
            migrations@.len() == SCHEMA_VERSION,
        ensures
            outcome_well_formed(r),
            final(self).spec_database_path() == old(self).spec_database_path(),
            final(self).spec_backup_directory() == old(self).spec_backup_directory(),
            r is Ok ==> opened_well(final(self).spec_opening(), text::string_views(migrations@)),
    {
        sql(sqlite::restore_main(&mut self.connection, source))?;
        let mut trace = Trace::new();
        let opening = open_steps(&self.connection, self.backup_directory.as_str(), migrations, &mut trace);
        opening?;
        ensure_search_projection(&self.connection)?;
        self.opening = trace;
        Ok(())
    }
}

} // verus!
