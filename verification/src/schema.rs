//! The rules of the local database schema: its version, the durability it
//! must open with, which migrations an opening applies, which orphan
//! references a migration answers for, and which search projections exist.

use vstd::prelude::*;
use crate::error::{CoreError, ErrorCode};
use crate::text;

verus! {

/// The schema version this build writes and reads.
pub const SCHEMA_VERSION: u32 = 30;

// ---------------------------------------------------------------------------
// Durability
// ---------------------------------------------------------------------------

/// The name SQLite gives to a `PRAGMA synchronous` level.
pub open spec fn spec_synchronous_name(value: int) -> Seq<char> {
    if value == 0 {
        "OFF"@
    } else if value == 1 {
        "NORMAL"@
    } else if value == 2 {
        "FULL"@
    } else if value == 3 {
        "EXTRA"@
    } else {
        "UNKNOWN"@
    }
}

/// Names a `PRAGMA synchronous` level.
pub fn synchronous_name(value: i64) -> (name: &'static str)
    ensures
        name@ == spec_synchronous_name(value as int),
{
    if value == 0 {
        "OFF"
    } else if value == 1 {
        "NORMAL"
    } else if value == 2 {
        "FULL"
    } else if value == 3 {
        "EXTRA"
    } else {
        "UNKNOWN"
    }
}

pub open spec fn ascii_lower(c: char) -> char {
    if 'A' <= c && c <= 'Z' {
        ((c as u32) + 32) as char
    } else {
        c
    }
}

/// Two texts that are equal once their ASCII letters are lower-cased.
pub open spec fn spec_eq_ignore_ascii_case(a: Seq<char>, b: Seq<char>) -> bool {
    &&& a.len() == b.len()
    &&& forall|i: int| 0 <= i < a.len() ==> ascii_lower(#[trigger] a[i]) == ascii_lower(b[i])
}

fn lower(c: char) -> (l: char)
    ensures
        l == ascii_lower(c),
{
    if 'A' <= c && c <= 'Z' {
        proof {
            assert(('A' as u32) <= (c as u32) <= ('Z' as u32));
        }
        let v: u32 = (c as u32) + 32;
        // Lower-case ASCII letters are valid scalar values.
        char_from_ascii(v)
    } else {
        c
    }
}

fn char_from_ascii(v: u32) -> (c: char)
    requires
        0x61 <= v <= 0x7A,
    ensures
        c == v as char,
{
    let b: u8 = v as u8;
    assert(b == v);
    b as char
}

/// Compares two texts ignoring the case of ASCII letters.
pub fn eq_ignore_ascii_case(a: &str, b: &str) -> (r: bool)
    ensures
        r == spec_eq_ignore_ascii_case(a@, b@),
{
    let n = a.unicode_len();
    if n != b.unicode_len() {
        return false;
    }
    let mut i: usize = 0;
    while i < n
        invariant
            n == a@.len(),
            n == b@.len(),
            i <= n,
            forall|k: int| 0 <= k < i ==> ascii_lower(#[trigger] a@[k]) == ascii_lower(b@[k]),
        decreases n - i,
    {
        if lower(a.get_char(i)) != lower(b.get_char(i)) {
            return false;
        }
        i = i + 1;
    }
    true
}

/// What the connection must report before anything is written: write-ahead
/// logging, `synchronous=FULL` and foreign keys enforced.
pub open spec fn spec_pragmas_durable(journal: Seq<char>, synchronous: int, foreign_keys: int) -> bool {
    &&& spec_eq_ignore_ascii_case(journal, "wal"@)
    &&& synchronous == 2
    &&& foreign_keys == 1
}

/// Checks the three settings a connection must report.
pub fn pragmas_durable(journal: &str, synchronous: i64, foreign_keys: i64) -> (r: bool)
    ensures
        r == spec_pragmas_durable(journal@, synchronous as int, foreign_keys as int),
{
    eq_ignore_ascii_case(journal, "wal") && synchronous == 2 && foreign_keys == 1
}

/// The answer `PRAGMA quick_check` gives for a sound database.
pub fn integrity_ok(result: &str) -> (r: bool)
    ensures
        r == (result@ == "ok"@),
{
    text::same_text(result, "ok")
}

// ---------------------------------------------------------------------------
// Migrations
// ---------------------------------------------------------------------------

/// What an opening does to a database found at a given `user_version`.
#[derive(Clone, Copy, Debug, PartialEq, Eq, Structural)]
pub struct MigrationPlan {
    /// Whether a copy of the database is taken before anything changes.
    pub snapshot: bool,
    /// The first migration to run; every one from it up to
    /// `SCHEMA_VERSION` runs, in order. Past `SCHEMA_VERSION` nothing runs.
    pub first: u32,
}

/// Migration number `n` (counted from 1) runs on a database at version
/// `current` exactly when the database has not seen it yet.
pub open spec fn migration_runs(current: nat, n: nat) -> bool {
    1 <= n <= SCHEMA_VERSION && current < n
}

/// A database that is neither fresh nor current is copied before migrating.
pub open spec fn snapshot_needed(current: nat) -> bool {
    0 < current < SCHEMA_VERSION
}

pub open spec fn newer_database_message() -> Seq<char> {
    "O banco local foi criado por uma versao mais nova do M/OS."@
}

/// Decides what opening a database at `current` does: a database written by
/// a newer build is refused; any other runs the migrations it has not seen,
/// after a snapshot when it already held data of an older version.
pub fn plan_migrations(current: u32) -> (r: Result<MigrationPlan, CoreError>)
    ensures
        current > SCHEMA_VERSION <==> r is Err,
        match r {
            Ok(plan) => {
                &&& plan.snapshot == snapshot_needed(current as nat)
                &&& plan.first == current + 1
                &&& forall|n: nat|
                    #![trigger migration_runs(current as nat, n)]
                    migration_runs(current as nat, n) <==> (plan.first <= n <= SCHEMA_VERSION)
            },
            Err(e) => {
                &&& e.code == ErrorCode::StorageUnavailable
                &&& e.message@ == newer_database_message()
                &&& !e.retryable
            },
        },
{
    if current > SCHEMA_VERSION {
        return Err(
            CoreError::new(
                ErrorCode::StorageUnavailable,
                "O banco local foi criado por uma versao mais nova do M/OS.",
                false,
            ),
        );
    }
    Ok(MigrationPlan { snapshot: current > 0 && current < SCHEMA_VERSION, first: current + 1 })
}

/// Every migration runs exactly once over the life of a database: a fresh
/// database runs all of them, a current one none, and upgrading through an
/// intermediate version runs the same migrations as upgrading at once, none
/// of them twice.
pub proof fn law_each_migration_runs_once(a: nat, b: nat, n: nat)
    requires
        a <= b <= SCHEMA_VERSION,
    ensures
        migration_runs(0, n) <==> 1 <= n <= SCHEMA_VERSION,
        !migration_runs(SCHEMA_VERSION as nat, n),
        migration_runs(a, n) <==> (migration_runs(a, n) && n <= b) || migration_runs(b, n),
        !((migration_runs(a, n) && n <= b) && migration_runs(b, n)),
        !snapshot_needed(0),
        !snapshot_needed(SCHEMA_VERSION as nat),
{
}

// ---------------------------------------------------------------------------
// Orphan references
// ---------------------------------------------------------------------------

/// How many orphan references `counts` records for `table`: the first entry
/// naming it, or none.
pub open spec fn count_for(counts: Seq<(Seq<char>, int)>, table: Seq<char>) -> int
    decreases counts.len(),
{
    if counts.len() == 0 {
        0
    } else if counts[0].0 == table {
        counts[0].1
    } else {
        count_for(counts.drop_first(), table)
    }
}

/// The plain view of a list of (table, count) pairs.
pub open spec fn counts_view(counts: Seq<(String, i64)>) -> Seq<(Seq<char>, int)> {
    counts.map_values(|p: (String, i64)| (p.0@, p.1 as int))
}

/// The tables that hold more orphans `after` than `before`, in the order of
/// `after`, each with how many more.
pub open spec fn spec_new_orphans(before: Seq<(Seq<char>, int)>, after: Seq<(Seq<char>, int)>) -> Seq<
    (Seq<char>, int),
>
    decreases after.len(),
{
    if after.len() == 0 {
        Seq::empty()
    } else {
        let rest = spec_new_orphans(before, after.drop_last());
        let last = after.last();
        if last.1 > count_for(before, last.0) {
            rest.push((last.0, last.1 - count_for(before, last.0)))
        } else {
            rest
        }
    }
}

fn count_in(counts: &Vec<(String, i64)>, table: &str) -> (n: i64)
    ensures
        n as int == count_for(counts_view(counts@), table@),
{
    let ghost v = counts_view(counts@);
    assert(v.skip(0) =~= v);
    let mut i: usize = 0;
    while i < counts.len()
        invariant
            i <= counts.len(),
            v == counts_view(counts@),
            v.len() == counts@.len(),
            count_for(v, table@) == count_for(v.skip(i as int), table@),
        decreases counts.len() - i,
    {
        assert(v.skip(i as int).drop_first() =~= v.skip(i + 1));
        assert(v.skip(i as int)[0] == v[i as int]);
        if text::same_text(counts[i].0.as_str(), table) {
            return counts[i].1;
        }
        i = i + 1;
    }
    assert(v.skip(i as int) =~= Seq::<(Seq<char>, int)>::empty());
    0
}

/// Lists the tables where a migration left orphan references that were not
/// there before it ran, with how many more each holds.
pub fn new_orphans(before: &Vec<(String, i64)>, after: &Vec<(String, i64)>) -> (r: Vec<
    (String, i64),
>)
    requires
        forall|i: int| 0 <= i < before@.len() ==> #[trigger] before@[i].1 >= 0,
        forall|i: int| 0 <= i < after@.len() ==> #[trigger] after@[i].1 >= 0,
    ensures
        counts_view(r@) == spec_new_orphans(counts_view(before@), counts_view(after@)),
{
    let ghost bv = counts_view(before@);
    let ghost av = counts_view(after@);
    let mut r: Vec<(String, i64)> = Vec::new();
    let mut i: usize = 0;
    while i < after.len()
        invariant
            i <= after.len(),
            bv == counts_view(before@),
            av == counts_view(after@),
            av.len() == after@.len(),
            forall|k: int| 0 <= k < before@.len() ==> #[trigger] before@[k].1 >= 0,
            forall|k: int| 0 <= k < after@.len() ==> #[trigger] after@[k].1 >= 0,
            counts_view(r@) == spec_new_orphans(bv, av.take(i as int)),
        decreases after.len() - i,
    {
        let had = count_in(before, after[i].0.as_str());
        proof {
            lemma_count_for_nonnegative(bv, after@[i as int].0@);
            assert(av.take(i + 1).drop_last() =~= av.take(i as int));
            assert(av.take(i + 1).last() == av[i as int]);
        }
        if after[i].1 > had {
            let table = after[i].0.clone();
            let more = after[i].1 - had;
            r.push((table, more));
            assert(counts_view(r@) =~= spec_new_orphans(bv, av.take(i as int)).push(
                (after@[i as int].0@, after@[i as int].1 - had),
            ));
        }
        i = i + 1;
    }
    assert(av.take(after.len() as int) =~= av);
    r
}

proof fn lemma_count_for_nonnegative(counts: Seq<(Seq<char>, int)>, table: Seq<char>)
    requires
        forall|i: int| 0 <= i < counts.len() ==> #[trigger] counts[i].1 >= 0,
    ensures
        count_for(counts, table) >= 0,
    decreases counts.len(),
{
    if counts.len() > 0 && counts[0].0 != table {
        let rest = counts.drop_first();
        assert forall|i: int| 0 <= i < rest.len() implies #[trigger] rest[i].1 >= 0 by {
            assert(rest[i] == counts[i + 1]);
        }
        lemma_count_for_nonnegative(rest, table);
    }
}

/// A migration answers for what it left and not for what it found: a table
/// is reported exactly when it holds more orphan references after the
/// migration than before, with the difference; a migration that adds none is
/// never blamed, however many were already there.
pub proof fn law_migration_answers_for_what_it_left(
    before: Seq<(Seq<char>, int)>,
    after: Seq<(Seq<char>, int)>,
)
    ensures
        forall|i: int|
            0 <= i < spec_new_orphans(before, after).len() ==> {
                let (t, n) = #[trigger] spec_new_orphans(before, after)[i];
                &&& n > 0
                &&& exists|j: int|
                    0 <= j < after.len() && after[j].0 == t && after[j].1 == count_for(before, t) + n
            },
        (forall|j: int| 0 <= j < after.len() ==> #[trigger] after[j].1 <= count_for(before, after[j].0))
            ==> spec_new_orphans(before, after).len() == 0,
        (forall|j: int|
            0 <= j < after.len() ==> #[trigger] after[j].1 > count_for(before, after[j].0))
            ==> spec_new_orphans(before, after).len() == after.len(),
    decreases after.len(),
{
    if after.len() > 0 {
        let prefix = after.drop_last();
        law_migration_answers_for_what_it_left(before, prefix);
        let rest = spec_new_orphans(before, prefix);
        assert forall|i: int|
            0 <= i < spec_new_orphans(before, after).len() implies {
                let (t, n) = #[trigger] spec_new_orphans(before, after)[i];
                &&& n > 0
                &&& exists|j: int|
                    0 <= j < after.len() && after[j].0 == t && after[j].1 == count_for(before, t) + n
            } by {
            if i < rest.len() {
                let (t, n) = rest[i];
                let j = choose|j: int|
                    0 <= j < prefix.len() && prefix[j].0 == t && prefix[j].1 == count_for(before, t)
                        + n;
                assert(after[j] == prefix[j]);
            } else {
                assert(after[after.len() - 1] == after.last());
            }
        }
        if forall|j: int|
            0 <= j < after.len() ==> #[trigger] after[j].1 <= count_for(before, after[j].0) {
            assert forall|j: int|
                0 <= j < prefix.len() implies #[trigger] prefix[j].1 <= count_for(before, prefix[j].0) by {
                assert(prefix[j] == after[j]);
            }
            assert(after[after.len() - 1] == after.last());
        }
        if forall|j: int|
            0 <= j < after.len() ==> #[trigger] after[j].1 > count_for(before, after[j].0) {
            assert forall|j: int|
                0 <= j < prefix.len() implies #[trigger] prefix[j].1 > count_for(before, prefix[j].0) by {
                assert(prefix[j] == after[j]);
            }
            assert(after[after.len() - 1] == after.last());
        }
    }
}

/// No table that gained orphan references goes unreported: every table
/// that holds more orphans after the migration than before is among the
/// reported ones, with the difference, whatever the tables around it hold.
pub proof fn law_every_new_orphan_is_reported(
    before: Seq<(Seq<char>, int)>,
    after: Seq<(Seq<char>, int)>,
    j: int,
)
    requires
        0 <= j < after.len(),
        after[j].1 > count_for(before, after[j].0),
    ensures
        exists|i: int|
            0 <= i < spec_new_orphans(before, after).len() && #[trigger] spec_new_orphans(before, after)[i]
                == (after[j].0, after[j].1 - count_for(before, after[j].0)),
    decreases after.len(),
{
    let prefix = after.drop_last();
    let found = spec_new_orphans(before, after);
    let rest = spec_new_orphans(before, prefix);
    let expected = (after[j].0, after[j].1 - count_for(before, after[j].0));
    if j < after.len() - 1 {
        assert(prefix[j] == after[j]);
        law_every_new_orphan_is_reported(before, prefix, j);
        let i = choose|i: int| 0 <= i < rest.len() && #[trigger] rest[i] == expected;
        assert(found[i] == rest[i]);
    } else {
        assert(after.last() == after[j]);
        assert(found == rest.push(expected));
        assert(found[rest.len() as int] == expected);
    }
}

/// One line of the refusal: the table and how many more orphans it holds.
pub open spec fn orphan_line(entry: (Seq<char>, int)) -> Seq<char> {
    entry.0 + " ("@ + text::spec_signed_decimal(entry.1) + " a mais)"@
}

/// The message a migration that left orphans is refused with.
pub open spec fn orphan_message(found: Seq<(Seq<char>, int)>) -> Seq<char> {
    "Esta migration deixou referencias orfas em: "@ + text::spec_join(
        found.map_values(|e: (Seq<char>, int)| orphan_line(e)),
        ", "@,
    ) + "."@
}

/// Writes the refusal for the tables where a migration left orphans.
pub fn describe_orphans(found: &Vec<(String, i64)>) -> (message: String)
    ensures
        message@ == orphan_message(counts_view(found@)),
{
    let mut lines: Vec<String> = Vec::new();
    let mut i: usize = 0;
    let ghost fv = counts_view(found@);
    while i < found.len()
        invariant
            i <= found.len(),
            fv == counts_view(found@),
            fv.len() == found@.len(),
            lines@.len() == i,
            forall|k: int|
                0 <= k < i ==> (#[trigger] lines@[k])@ == orphan_line(fv[k]),
        decreases found.len() - i,
    {
        let mut line = found[i].0.clone();
        line.append(" (");
        let amount = text::signed_decimal(found[i].1);
        line.append(amount.as_str());
        line.append(" a mais)");
        lines.push(line);
        i = i + 1;
    }
    let joined = text::join(&lines, ", ");
    assert(text::string_views(lines@) =~= fv.map_values(|e: (Seq<char>, int)| orphan_line(e)));
    let mut message = String::from_str("Esta migration deixou referencias orfas em: ");
    message.append(joined.as_str());
    message.append(".");
    message
}

// ---------------------------------------------------------------------------
// Search projections
// ---------------------------------------------------------------------------

/// Each table of the product with the full-text projection that mirrors it.
pub open spec fn spec_search_projections() -> Seq<(Seq<char>, Seq<char>)> {
    seq![
        ("captures"@, "capture_search"@),
        ("projects"@, "project_search"@),
        ("tasks"@, "task_search"@),
        ("apps"@, "app_search"@),
        ("workspaces"@, "workspace_search"@),
        ("resources"@, "resource_search"@),
        ("ingestions"@, "ingestion_search"@),
        ("message_parts"@, "message_search"@),
    ]
}

/// The tables whose full-text projection is checked at every opening.
pub fn search_projections() -> (pairs: Vec<(&'static str, &'static str)>)
    ensures
        pairs@.len() == spec_search_projections().len(),
        forall|i: int|
            0 <= i < pairs@.len() ==> (#[trigger] pairs@[i]).0@ == spec_search_projections()[i].0
                && pairs@[i].1@ == spec_search_projections()[i].1,
{
    let mut pairs = Vec::new();
    pairs.push(("captures", "capture_search"));
    pairs.push(("projects", "project_search"));
    pairs.push(("tasks", "task_search"));
    pairs.push(("apps", "app_search"));
    pairs.push(("workspaces", "workspace_search"));
    pairs.push(("resources", "resource_search"));
    pairs.push(("ingestions", "ingestion_search"));
    pairs.push(("message_parts", "message_search"));
    pairs
}

/// A projection is rebuilt when it no longer mirrors its table row for row.
pub fn projection_needs_rebuild(source_count: i64, search_count: i64) -> (r: bool)
    ensures
        r == (source_count != search_count),
{
    source_count != search_count
}

} // verus!
