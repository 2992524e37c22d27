//! The rules of `.mos-backup` archives: the manifest a backup carries, when a
//! backup may be trusted before it replaces the database, how snapshots are
//! named, and which daily snapshots are pruned.

use vstd::prelude::*;
use crate::error::{CoreError, ErrorCode};
use crate::schema::SCHEMA_VERSION;
use crate::sqlite::{self, extends, lemma_extends_refl, lemma_extends_trans, lemma_push, Event, Trace};
use crate::storage::{
    added, outcome_well_formed, sql, verify_integrity, QUICK_CHECK_QUERY, USER_VERSION_QUERY,
};
use crate::text;

verus! {

/// The manifest stored next to the database in a backup archive.
#[derive(Debug)]
pub struct BackupManifest {
    pub format: String,
    pub format_version: u32,
    pub schema_version: u32,
    pub created_at: String,
    pub capture_count: u64,
    pub database_sha256: String,
    pub database_bytes: u64,
}

pub open spec fn backup_format() -> Seq<char> {
    "m-os-backup"@
}

/// The manifest for a snapshot of the current schema.
pub fn new_manifest(
    created_at: String,
    capture_count: u64,
    database_sha256: String,
    database_bytes: u64,
) -> (m: BackupManifest)
    ensures
        m.format@ == backup_format(),
        m.format_version == 1,
        m.schema_version == SCHEMA_VERSION,
        m.created_at@ == created_at@,
        m.capture_count == capture_count,
        m.database_sha256@ == database_sha256@,
        m.database_bytes == database_bytes,
{
    BackupManifest {
        format: String::from_str("m-os-backup"),
        format_version: 1,
        schema_version: SCHEMA_VERSION,
        created_at,
        capture_count,
        database_sha256,
        database_bytes,
    }
}

pub open spec fn invalid_prefix() -> Seq<char> {
    "Backup invalido: "@
}

/// The error for a backup that cannot be trusted.
pub fn backup_invalid(message: &str) -> (e: CoreError)
    ensures
        e.code == ErrorCode::BackupInvalid,
        e.message@ == invalid_prefix() + message@,
        !e.retryable,
{
    CoreError::with_message(ErrorCode::BackupInvalid, text::concatenate("Backup invalido: ", message), false)
}

pub open spec fn unknown_format_message() -> Seq<char> {
    "Formato de backup desconhecido."@
}

pub open spec fn newer_backup_message() -> Seq<char> {
    "O backup pertence a uma versao mais nova do M/OS."@
}

/// Accepts a manifest of the known format whose schema this build can read.
pub fn check_manifest(manifest: &BackupManifest) -> (r: Result<(), CoreError>)
    ensures
        r is Ok <==> (manifest.format@ == backup_format() && manifest.format_version == 1
            && manifest.schema_version <= SCHEMA_VERSION),
        r is Err && (manifest.format@ != backup_format() || manifest.format_version != 1) ==> (
        r->Err_0.code == ErrorCode::BackupInvalid && r->Err_0.message@ == invalid_prefix()
            + unknown_format_message()),
        r is Err && manifest.format@ == backup_format() && manifest.format_version == 1 ==> (
        r->Err_0.code == ErrorCode::UnsupportedBackup && r->Err_0.message@
            == newer_backup_message()),
        r is Err ==> !r->Err_0.retryable,
{
    if !text::same_text(manifest.format.as_str(), "m-os-backup") || manifest.format_version != 1 {
        return Err(backup_invalid("Formato de backup desconhecido."));
    }
    if manifest.schema_version > SCHEMA_VERSION {
        return Err(
            CoreError::new(
                ErrorCode::UnsupportedBackup,
                "O backup pertence a uma versao mais nova do M/OS.",
                false,
            ),
        );
    }
    Ok(())
}

pub open spec fn checksum_mismatch_message() -> Seq<char> {
    "O checksum do backup nao confere."@
}

/// Accepts the extracted database file only when its size and checksum are
/// the ones the manifest recorded.
pub fn check_database_file(manifest: &BackupManifest, bytes: u64, sha256: &str) -> (r: Result<
    (),
    CoreError,
>)
    ensures
        r is Ok <==> (bytes == manifest.database_bytes && sha256@ == manifest.database_sha256@),
        r is Err ==> r->Err_0.code == ErrorCode::BackupInvalid && r->Err_0.message@
            == invalid_prefix() + checksum_mismatch_message() && !r->Err_0.retryable,
{
    if bytes != manifest.database_bytes || !text::same_text(
        sha256,
        manifest.database_sha256.as_str(),
    ) {
        return Err(backup_invalid("O checksum do backup nao confere."));
    }
    Ok(())
}

pub open spec fn manifest_mismatch_message() -> Seq<char> {
    "O manifest nao corresponde ao banco do backup."@
}

/// Accepts the extracted database only when its schema version and capture
/// count are the ones the manifest recorded.
pub fn check_database_contents(manifest: &BackupManifest, schema_version: u32, capture_count: u64) -> (r:
    Result<(), CoreError>)
    ensures
        r is Ok <==> (schema_version == manifest.schema_version && capture_count
            == manifest.capture_count),
        r is Err ==> r->Err_0.code == ErrorCode::BackupInvalid && r->Err_0.message@
            == invalid_prefix() + manifest_mismatch_message() && !r->Err_0.retryable,
{
    if schema_version != manifest.schema_version || capture_count != manifest.capture_count {
        return Err(backup_invalid("O manifest nao corresponde ao banco do backup."));
    }
    Ok(())
}

pub const CAPTURE_COUNT_QUERY: &'static str = "SELECT count(*) FROM captures";

/// Opens the database extracted from a backup, checks its integrity, and
/// accepts it only when it holds the schema version and capture count its
/// manifest recorded (through `check_database_contents`). The trace shows
/// the integrity check answering `ok`, then the version and the count read;
/// the database is accepted exactly when those match the manifest.
pub fn validate_extracted_database(path: &str, manifest: &BackupManifest, trace: &mut Trace) -> (r: Result<
    (),
    CoreError,
>)
    ensures
        outcome_well_formed(r),
        extends(final(trace).events@, old(trace).events@),
        r is Ok ==> {
            let e = added(old(trace).events@, final(trace).events@);
            &&& e.len() == 3
            &&& e[0] == Event::ReadText(QUICK_CHECK_QUERY@, "ok"@)
            &&& e[1] == Event::ReadInteger(USER_VERSION_QUERY@, Seq::empty(), manifest.schema_version as i64)
            &&& e[2] matches Event::ReadInteger(q, v, count) && q == CAPTURE_COUNT_QUERY@ && v.len() == 0
                && count as u64 == manifest.capture_count
        },
        ({
            let e = added(old(trace).events@, final(trace).events@);
            &&& e.len() == 3
            &&& match (e[1], e[2]) {
                (Event::ReadInteger(q1, v1, version), Event::ReadInteger(q2, v2, count)) => {
                    &&& q1 == USER_VERSION_QUERY@
                    &&& q2 == CAPTURE_COUNT_QUERY@
                    &&& (version != manifest.schema_version as i64 || count as u64 != manifest.capture_count)
                },
                _ => false,
            }
        }) ==> r is Err && r->Err_0.code == ErrorCode::BackupInvalid,
{
    let ghost base = trace.events@;
    proof {
        lemma_extends_refl(base);
    }
    let validation = sql(sqlite::open(path))?;
    verify_integrity(&validation, trace)?;
    let ghost t1 = trace.events@;
    proof {
        lemma_push(base, Event::ReadText(QUICK_CHECK_QUERY@, "ok"@));
    }
    let r1 = sqlite::query_u32_traced(&validation, USER_VERSION_QUERY, trace);
    proof {
        if r1 is Ok {
            lemma_push(t1, Event::ReadInteger(USER_VERSION_QUERY@, Seq::empty(), r1->Ok_0 as i64));
            lemma_extends_trans(trace.events@, t1, base);
        }
    }
    let schema = sql(r1)?;
    let ghost t2 = trace.events@;
    let r2 = sqlite::query_integer_traced(&validation, CAPTURE_COUNT_QUERY, trace);
    proof {
        if r2 is Ok {
            lemma_push(t2, Event::ReadInteger(CAPTURE_COUNT_QUERY@, Seq::empty(), r2->Ok_0));
            lemma_extends_trans(trace.events@, t2, base);
        }
    }
    let count = sql(r2)?;
    proof {
        assert(added(base, trace.events@) =~= seq![
            Event::ReadText(QUICK_CHECK_QUERY@, "ok"@),
            Event::ReadInteger(USER_VERSION_QUERY@, Seq::empty(), schema as i64),
            Event::ReadInteger(CAPTURE_COUNT_QUERY@, Seq::empty(), count),
        ]);
    }
    check_database_contents(manifest, schema, count as u64)
}

// ---------------------------------------------------------------------------
// Checksums
// ---------------------------------------------------------------------------

/// The SHA-256 digest of some bytes.
pub uninterp spec fn sha256_digest(data: Seq<u8>) -> Seq<u8>;

/// `sha2::Sha256::digest` of the bytes. The result is the SHA-256 digest of
/// exactly these bytes, which is 32 bytes long.
#[verifier::external_body]
fn sha256(data: &[u8]) -> (digest: Vec<u8>)
    ensures
        digest@ == sha256_digest(data@),
        digest@.len() == 32,
{
    <sha2::Sha256 as sha2::Digest>::digest(data).to_vec()
}

pub open spec fn hex_digit(v: u8) -> char {
    if v < 10 {
        ((v as u32) + 0x30) as char
    } else {
        ((v as u32) - 10 + 0x61) as char
    }
}

/// Each byte written as two lowercase hexadecimal digits, high half first.
pub open spec fn spec_hex(data: Seq<u8>) -> Seq<char>
    decreases data.len(),
{
    if data.len() == 0 {
        Seq::empty()
    } else {
        spec_hex(data.drop_last()) + seq![hex_digit(data.last() / 16), hex_digit(data.last() % 16)]
    }
}

/// `hex::encode`: each byte as two lowercase hexadecimal digits, in order.
#[verifier::external_body]
fn hex_encode(data: &[u8]) -> (s: String)
    ensures
        s@ == spec_hex(data@),
{
    hex::encode(data)
}

/// The checksum a manifest records: the SHA-256 of the database file in
/// lowercase hexadecimal.
pub fn database_checksum(data: &[u8]) -> (s: String)
    ensures
        s@ == spec_hex(sha256_digest(data@)),
        s@.len() == 64,
{
    let digest = sha256(data);
    proof {
        lemma_hex_len(digest@);
    }
    hex_encode(digest.as_slice())
}

proof fn lemma_hex_len(data: Seq<u8>)
    ensures
        spec_hex(data).len() == 2 * data.len(),
    decreases data.len(),
{
    if data.len() > 0 {
        lemma_hex_len(data.drop_last());
    }
}

// ---------------------------------------------------------------------------
// Snapshot names
// ---------------------------------------------------------------------------

/// The name of the daily snapshot of a date written `YYYY-MM-DD`.
pub open spec fn spec_daily_name(date: Seq<char>) -> Seq<char> {
    "daily-"@ + text::spec_without(date, '-') + ".mos-backup"@
}

/// Names the daily snapshot of a date written `YYYY-MM-DD`.
pub fn daily_snapshot_name(date: &str) -> (name: String)
    ensures
        name@ == spec_daily_name(date@),
{
    let mut name = String::from_str("daily-");
    let compact = text::without_char(date, '-');
    name.append(compact.as_str());
    name.append(".mos-backup");
    name
}

/// The name of the copy taken right before a restore, at the given stamp.
pub fn safety_snapshot_name(stamp: &str) -> (name: String)
    ensures
        name@ == "safety-"@ + stamp@ + ".mos-backup"@,
{
    let mut name = String::from_str("safety-");
    name.append(stamp);
    name.append(".mos-backup");
    name
}

// ---------------------------------------------------------------------------
// Pruning daily snapshots
// ---------------------------------------------------------------------------

/// The order file names sort in: character by character, a proper prefix
/// first.
pub open spec fn name_lt(a: Seq<char>, b: Seq<char>) -> bool
    decreases a.len(),
{
    if a.len() == 0 {
        b.len() > 0
    } else if b.len() == 0 {
        false
    } else if a[0] != b[0] {
        (a[0] as u32) < (b[0] as u32)
    } else {
        name_lt(a.drop_first(), b.drop_first())
    }
}

/// Compares two names in the order file names sort in.
pub fn name_less(a: &str, b: &str) -> (r: bool)
    ensures
        r == name_lt(a@, b@),
{
    let na = a.unicode_len();
    let nb = b.unicode_len();
    let mut i: usize = 0;
    assert(a@.skip(0) =~= a@);
    assert(b@.skip(0) =~= b@);
    while i < na && i < nb
        invariant
            na == a@.len(),
            nb == b@.len(),
            i <= na,
            i <= nb,
            name_lt(a@, b@) == name_lt(a@.skip(i as int), b@.skip(i as int)),
        decreases na - i,
    {
        let x = a.get_char(i);
        let y = b.get_char(i);
        assert(a@.skip(i as int)[0] == x);
        assert(b@.skip(i as int)[0] == y);
        if x != y {
            return (x as u32) < (y as u32);
        }
        assert(a@.skip(i as int).drop_first() =~= a@.skip(i + 1));
        assert(b@.skip(i as int).drop_first() =~= b@.skip(i + 1));
        i = i + 1;
    }
    i == na && i < nb
}

/// Is entry `j` of `names` before entry `i` in file-name order (ties kept in
/// list order)?
pub open spec fn precedes(names: Seq<Seq<char>>, j: int, i: int) -> bool {
    name_lt(names[j], names[i]) || (names[j] == names[i] && j < i)
}

/// How many of the first `n` entries come before entry `i`.
pub open spec fn rank_upto(names: Seq<Seq<char>>, i: int, n: int) -> int
    decreases n,
{
    if n <= 0 {
        0
    } else {
        rank_upto(names, i, n - 1) + (if precedes(names, n - 1, i) {
            1int
        } else {
            0int
        })
    }
}

/// Where entry `i` stands once the names are sorted.
pub open spec fn rank(names: Seq<Seq<char>>, i: int) -> int {
    rank_upto(names, i, names.len() as int)
}

pub open spec fn is_daily(name: Seq<char>) -> bool {
    "daily-"@.len() <= name.len() && name.take("daily-"@.len() as int) == "daily-"@
}

/// The daily snapshots among the names, in list order.
pub open spec fn daily_names(names: Seq<Seq<char>>) -> Seq<Seq<char>> {
    names.filter(|n: Seq<char>| is_daily(n))
}

/// How many daily snapshots go when `retain` of them are kept.
pub open spec fn prune_count(daily: Seq<Seq<char>>, retain: nat) -> int {
    if daily.len() > retain {
        daily.len() - retain
    } else {
        0
    }
}

/// The daily snapshots that go: those that sort before all but the newest
/// `retain`, in list order.
pub open spec fn spec_pruned(names: Seq<Seq<char>>, retain: nat) -> Seq<Seq<char>> {
    let daily = daily_names(names);
    Seq::new(daily.len(), |i: int| i).filter(
        |i: int| rank(daily, i) < prune_count(daily, retain),
    ).map_values(|i: int| daily[i])
}

fn rank_of(names: &Vec<String>, i: usize) -> (r: usize)
    requires
        i < names@.len(),
    ensures
        r as int == rank(text::string_views(names@), i as int),
{
    let ghost v = text::string_views(names@);
    let mut count: usize = 0;
    let mut j: usize = 0;
    while j < names.len()
        invariant
            v == text::string_views(names@),
            v.len() == names@.len(),
            i < names@.len(),
            j <= names.len(),
            count <= j,
            count as int == rank_upto(v, i as int, j as int),
        decreases names.len() - j,
    {
        let before = name_less(names[j].as_str(), names[i].as_str()) || (text::same_text(
            names[j].as_str(),
            names[i].as_str(),
        ) && j < i);
        if before {
            count = count + 1;
        }
        j = j + 1;
    }
    count
}

/// Picks the daily snapshots to delete so that only the newest `retain` of
/// them stay; any other file is never picked.
pub fn daily_backups_to_prune(names: &Vec<String>, retain: usize) -> (r: Vec<String>)
    ensures
        text::string_views(r@) == spec_pruned(text::string_views(names@), retain as nat),
{
    let ghost all = text::string_views(names@);
    let mut daily: Vec<String> = Vec::new();
    let mut i: usize = 0;
    while i < names.len()
        invariant
            all == text::string_views(names@),
            all.len() == names@.len(),
            i <= names.len(),
            text::string_views(daily@) == daily_names(all.take(i as int)),
        decreases names.len() - i,
    {
        proof {
            reveal_with_fuel(Seq::<_>::filter, 1);
            assert(all.take(i + 1).drop_last() =~= all.take(i as int));
        }
        if text::starts_with(names[i].as_str(), "daily-") {
            daily.push(names[i].clone());
            assert(text::string_views(daily@) =~= daily_names(all.take(i as int)).push(
                names@[i as int]@,
            ));
        }
        i = i + 1;
    }
    assert(all.take(names.len() as int) =~= all);
    let ghost dv = text::string_views(daily@);
    let remove_count: usize = if daily.len() > retain {
        daily.len() - retain
    } else {
        0
    };
    let mut r: Vec<String> = Vec::new();
    let ghost idx = Seq::new(dv.len(), |k: int| k);
    let mut k: usize = 0;
    while k < daily.len()
        invariant
            dv == text::string_views(daily@),
            dv.len() == daily@.len(),
            idx == Seq::new(dv.len(), |k: int| k),
            remove_count as int == prune_count(dv, retain as nat),
            k <= daily.len(),
            text::string_views(r@) == idx.take(k as int).filter(
                |i: int| rank(dv, i) < prune_count(dv, retain as nat),
            ).map_values(|i: int| dv[i]),
        decreases daily.len() - k,
    {
        let position = rank_of(&daily, k);
        proof {
            reveal_with_fuel(Seq::<_>::filter, 1);
            assert(idx.take(k + 1).drop_last() =~= idx.take(k as int));
            assert(idx.take(k + 1).last() == k as int);
        }
        if position < remove_count {
            r.push(daily[k].clone());
            assert(text::string_views(r@) =~= idx.take(k as int).filter(
                |i: int| rank(dv, i) < prune_count(dv, retain as nat),
            ).map_values(|i: int| dv[i]).push(dv[k as int]));
        }
        k = k + 1;
    }
    assert(idx.take(daily.len() as int) =~= idx);
    r
}

proof fn lemma_rank_nonnegative(names: Seq<Seq<char>>, i: int, n: int)
    ensures
        rank_upto(names, i, n) >= 0,
    decreases n,
{
    if n > 0 {
        lemma_rank_nonnegative(names, i, n - 1);
    }
}

/// Pruning never touches a file that is not a daily snapshot, and keeps
/// everything when there are no more daily snapshots than it retains.
pub proof fn law_pruning_only_removes_old_daily_snapshots(names: Seq<Seq<char>>, retain: nat)
    ensures
        forall|k: int|
            0 <= k < spec_pruned(names, retain).len() ==> is_daily(
                #[trigger] spec_pruned(names, retain)[k],
            ),
        daily_names(names).len() <= retain ==> spec_pruned(names, retain).len() == 0,
{
    let daily = daily_names(names);
    let idx = Seq::new(daily.len(), |i: int| i);
    let pred = |i: int| rank(daily, i) < prune_count(daily, retain);
    let chosen = idx.filter(pred);
    assert forall|k: int| 0 <= k < spec_pruned(names, retain).len() implies is_daily(
        #[trigger] spec_pruned(names, retain)[k],
    ) by {
        let c = chosen[k];
        assert(chosen.contains(c));
        idx.lemma_filter_contains_rev(pred, c);
        let j = choose|j: int| 0 <= j < idx.len() && idx[j] == c;
        assert(0 <= c < daily.len());
        names.lemma_filter_pred(|n: Seq<char>| is_daily(n), c);
        assert(spec_pruned(names, retain)[k] == daily[c]);
    }
    if daily.len() <= retain && chosen.len() > 0 {
        idx.lemma_filter_pred(pred, 0);
        lemma_rank_nonnegative(daily, chosen[0], daily.len() as int);
        assert(false);
    }
}

proof fn lemma_name_lt_irreflexive(a: Seq<char>)
    ensures
        !name_lt(a, a),
    decreases a.len(),
{
    if a.len() > 0 {
        lemma_name_lt_irreflexive(a.drop_first());
    }
}

proof fn lemma_rank_of_newest(names: Seq<Seq<char>>, m: int, n: int)
    requires
        0 <= m < names.len(),
        0 <= n <= names.len(),
        forall|j: int| 0 <= j < names.len() && j != m ==> name_lt(#[trigger] names[j], names[m]),
    ensures
        rank_upto(names, m, n) == if m < n {
            n - 1
        } else {
            n
        },
    decreases n,
{
    if n > 0 {
        lemma_rank_of_newest(names, m, n - 1);
        if n - 1 == m {
            lemma_name_lt_irreflexive(names[m]);
        }
    }
}

/// The newest daily snapshot is never pruned while at least one is kept.
pub proof fn law_newest_daily_snapshot_is_kept(names: Seq<Seq<char>>, retain: nat, m: int)
    requires
        retain >= 1,
        0 <= m < daily_names(names).len(),
        forall|j: int|
            0 <= j < daily_names(names).len() && j != m ==> name_lt(
                #[trigger] daily_names(names)[j],
                daily_names(names)[m],
            ),
    ensures
        !spec_pruned(names, retain).contains(daily_names(names)[m]),
{
    let daily = daily_names(names);
    let idx = Seq::new(daily.len(), |i: int| i);
    let pred = |i: int| rank(daily, i) < prune_count(daily, retain);
    let chosen = idx.filter(pred);
    lemma_rank_of_newest(daily, m, daily.len() as int);
    if spec_pruned(names, retain).contains(daily[m]) {
        let k = choose|k: int|
            0 <= k < spec_pruned(names, retain).len() && spec_pruned(names, retain)[k] == daily[m];
        let i = chosen[k];
        assert(chosen.contains(i));
        idx.lemma_filter_contains_rev(pred, i);
        idx.lemma_filter_pred(pred, k);
        assert(0 <= i < daily.len());
        assert(daily[i] == daily[m]);
        if i != m {
            lemma_name_lt_irreflexive(daily[m]);
        }
    }
}

} // verus!
