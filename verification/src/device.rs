//! The identity of the devices that synchronise.
//!
//! This device keeps one id for its whole life: the row in `devices` may be
//! lost, and the anchor in `app_metadata` brings the same id back.

use vstd::prelude::*;
use crate::cronocad::format_error_prefix;
use crate::clock;
use crate::sqlite::{
    self, executed, lemma_push_filters, optional_view, texts_read, Event, SqlValue, Trace,
};
use crate::storage::SqliteStorage;
use crate::text;

verus! {

/// A device as the synchronisation screen lists it.
#[derive(Debug)]
pub struct Device {
    pub id: String,
    pub name: String,
    /// The platform as stored.
    pub platform: String,
    pub app_version: String,
    pub last_sync_at: String,
    pub is_this_device: bool,
}

/// An error of the device repository, as the synchronisation engine takes it.
#[derive(Debug)]
pub struct SyncError {
    pub message: String,
    pub retryable: bool,
}

/// A row of `devices` as it is stored.
#[derive(Debug)]
pub struct DeviceRow {
    pub id: String,
    pub name: String,
    pub platform: String,
    pub app_version: String,
    pub last_sync_at: String,
    pub is_this_device: i64,
}

pub open spec fn refused_prefix() -> Seq<char> {
    "O banco local recusou a operacao: "@
}

/// Every failure of SQLite is worth retrying here: busy, locked and passing
/// I/O are the common case, and a corrupt database is refused when it opens.
pub fn erro_sql(causa: rusqlite::Error) -> (e: SyncError)
    ensures
        e.retryable,
        exists|detail: Seq<char>| e.message@ == refused_prefix() + detail,
{
    let detail = sqlite::error_text(&causa);
    let e = SyncError { message: text::concatenate("O banco local recusou a operacao: ", detail.as_str()), retryable: true };
    assert(e.message@ == refused_prefix() + detail@);
    e
}

/// A poisoned lock around the connection is not worth retrying.
pub fn erro_lock() -> (e: SyncError)
    ensures
        !e.retryable,
        e.message@ == "A conexao com o banco local ficou envenenada."@,
{
    SyncError { message: String::from_str("A conexao com o banco local ficou envenenada."), retryable: false }
}

fn sync_sql<T>(r: Result<T, rusqlite::Error>) -> (out: Result<T, SyncError>)
    ensures
        r is Ok <==> out is Ok,
        r is Ok ==> out->Ok_0 == r->Ok_0,
        out is Err ==> out->Err_0.retryable,
{
    match r {
        Ok(value) => Ok(value),
        Err(error) => Err(erro_sql(error)),
    }
}

/// The text form of a stored device id: the id as `uuid` writes it, or the
/// nil id when the stored text is not a UUID.
pub uninterp spec fn canonical_uuid(text: Seq<char>) -> Seq<char>;

/// `Uuid::parse_str`, falling back to `Uuid::nil()`, written back with
/// `to_string`. The result depends on the text alone.
#[verifier::external_body]
fn canonical_id(raw: &str) -> (id: String)
    ensures
        id@ == canonical_uuid(raw@),
{
    uuid::Uuid::parse_str(raw).unwrap_or_else(|_| uuid::Uuid::nil()).to_string()
}

/// A new id from `Uuid::now_v7`. Nothing is stated: it depends on the time
/// and on chance.
#[verifier::external_body]
fn new_device_id() -> (id: String) {
    uuid::Uuid::now_v7().to_string()
}

/// The values a stored device row holds, in column order.
pub open spec fn device_cells(row: DeviceRow) -> Seq<SqlValue> {
    seq![
        SqlValue::Text(row.id),
        SqlValue::Text(row.name),
        SqlValue::Text(row.platform),
        SqlValue::Text(row.app_version),
        SqlValue::Text(row.last_sync_at),
        SqlValue::Integer(row.is_this_device),
    ]
}

/// `d` is the device the stored values `cells` describe.
pub open spec fn describes(cells: Seq<SqlValue>, d: Device) -> bool {
    &&& cells.len() == 6
    &&& cells[0] matches SqlValue::Text(id) && d.id@ == canonical_uuid(id@)
    &&& is_text(cells[1], d.name@)
    &&& is_text(cells[2], d.platform@)
    &&& is_text(cells[3], d.app_version@)
    &&& is_text(cells[4], d.last_sync_at@)
    &&& cells[5] matches SqlValue::Integer(flag) && d.is_this_device == (flag == 1)
}

/// The device a stored row describes.
pub fn device_from_row(row: DeviceRow) -> (d: Device)
    ensures
        d.id@ == canonical_uuid(row.id@),
        d.name@ == row.name@,
        d.platform@ == row.platform@,
        d.app_version@ == row.app_version@,
        d.last_sync_at@ == row.last_sync_at@,
        d.is_this_device == (row.is_this_device == 1),
{
    Device {
        id: canonical_id(row.id.as_str()),
        name: row.name,
        platform: row.platform,
        app_version: row.app_version,
        last_sync_at: row.last_sync_at,
        is_this_device: row.is_this_device == 1,
    }
}

/// Every device row a query returns, with the values bound to `?1`, `?2`,
/// ..., recorded in the trace with the rows when there are. Nothing is
/// stated of the rows.
#[verifier::external_body]
fn read_devices(connection: &rusqlite::Connection, sql: &str, values: &Vec<SqlValue>, trace: &mut Trace) -> (r: Result<
    Vec<DeviceRow>,
    rusqlite::Error,
>)
    ensures
        r is Ok ==> final(trace).events@ == old(trace).events@.push(
            Event::ReadRows(sql@, values@, r->Ok_0@.map_values(|row: DeviceRow| device_cells(row))),
        ),
        r is Err ==> final(trace).events@ == old(trace).events@,
{
    let bound: Vec<rusqlite::types::Value> = values.iter().map(|value| match value {
        SqlValue::Null => rusqlite::types::Value::Null,
        SqlValue::Integer(number) => rusqlite::types::Value::Integer(*number),
        SqlValue::Text(text) => rusqlite::types::Value::Text(text.clone()),
    }).collect();
    let mut statement = connection.prepare(sql)?;
    let rows = statement.query_map(rusqlite::params_from_iter(bound), |row| Ok(DeviceRow {
        id: row.get(0)?, name: row.get(1)?, platform: row.get(2)?, app_version: row.get(3)?,
        last_sync_at: row.get(4)?, is_this_device: row.get(5)?,
    }))?;
    rows.collect()
}

/// The first row `sql` returns with the id bound to `?1`, read as a device
/// row (`Connection::query_row`): no row is an error
/// (`QueryReturnedNoRows`). Nothing is stated of the row.
#[verifier::external_body]
fn read_device(connection: &rusqlite::Connection, sql: &str, id: &str, trace: &mut Trace) -> (r: Result<
    DeviceRow,
    rusqlite::Error,
>)
    ensures
        r is Ok ==> {
            &&& final(trace).events@.len() == old(trace).events@.len() + 1
            &&& final(trace).events@.drop_last() == old(trace).events@
            &&& final(trace).events@.last() matches Event::ReadRows(q, v, rows) && q == sql@ && v.len() == 1
                && is_text(v[0], id@) && rows == seq![device_cells(r->Ok_0)]
        },
        r is Err ==> final(trace).events@ == old(trace).events@,
{
    connection.query_row(
        sql,
        [id],
        |row| Ok(DeviceRow {
            id: row.get(0)?, name: row.get(1)?, platform: row.get(2)?, app_version: row.get(3)?,
            last_sync_at: row.get(4)?, is_this_device: row.get(5)?,
        }),
    )
}

/// Which id this device keeps: the one of its row when the row exists;
/// otherwise the anchored one; `None` when neither exists and a new id must
/// be made.
pub open spec fn spec_device_id(existing: Option<Seq<char>>, anchored: Option<Seq<char>>) -> Option<
    Seq<char>,
> {
    match existing {
        Some(id) => Some(id),
        None => anchored,
    }
}

pub open spec fn view_option(o: Option<String>) -> Option<Seq<char>> {
    match o {
        Some(s) => Some(s@),
        None => None,
    }
}

/// Decides which id this device keeps.
pub fn device_id_for(existing: Option<String>, anchored: Option<String>) -> (id: Option<String>)
    ensures
        view_option(id) == spec_device_id(view_option(existing), view_option(anchored)),
{
    match existing {
        Some(id) => Some(id),
        None => anchored,
    }
}

/// This device keeps its id: while its row exists the row's id is kept;
/// when the row is lost the anchor brings the same id back; a new id is made
/// only when neither exists.
pub proof fn law_device_keeps_its_id(existing: Option<Seq<char>>, anchored: Option<Seq<char>>)
    ensures
        existing is Some ==> spec_device_id(existing, anchored) == existing,
        existing is None ==> spec_device_id(existing, anchored) == anchored,
        spec_device_id(existing, anchored) is None <==> existing is None && anchored is None,
{
}

pub const THIS_DEVICE_QUERY: &'static str = "SELECT id FROM devices WHERE is_this_device = 1";

pub const ANCHOR_QUERY: &'static str = "SELECT value FROM app_metadata WHERE key = 'sync_device_id'";

pub const UPDATE_DEVICE: &'static str = "UPDATE devices SET name = ?2, platform = ?3, app_version = ?4, updated_at = ?5 WHERE id = ?1";

pub const KEEP_ANCHOR: &'static str = "INSERT OR IGNORE INTO app_metadata (key, value) VALUES ('sync_device_id', ?1)";

pub const INSERT_DEVICE: &'static str = "INSERT INTO devices (id, name, platform, app_version, last_sync_at, is_this_device, created_at, updated_at) VALUES (?1, ?2, ?3, ?4, '', 1, ?5, ?5)";

pub const DEVICE_BY_ID: &'static str = "SELECT id, name, platform, app_version, last_sync_at, is_this_device FROM devices WHERE id = ?1";

pub const LIST_DEVICES: &'static str = "SELECT id, name, platform, app_version, last_sync_at, is_this_device FROM devices ORDER BY is_this_device DESC, last_sync_at DESC, name";

pub const MARK_SYNC: &'static str = "UPDATE devices SET last_sync_at = ?2, updated_at = ?2 WHERE id = ?1";

pub const SET_ANCHOR: &'static str = "INSERT INTO app_metadata (key, value) VALUES ('sync_device_id', ?1) ON CONFLICT(key) DO UPDATE SET value = ?1";

proof fn lemma_device_statements_differ()
    ensures
        THIS_DEVICE_QUERY@ != ANCHOR_QUERY@,
        UPDATE_DEVICE@ != KEEP_ANCHOR@,
        INSERT_DEVICE@ != SET_ANCHOR@,
{
    reveal_strlit("SELECT id FROM devices WHERE is_this_device = 1");
    reveal_strlit("SELECT value FROM app_metadata WHERE key = 'sync_device_id'");
    reveal_strlit("UPDATE devices SET name = ?2, platform = ?3, app_version = ?4, updated_at = ?5 WHERE id = ?1");
    reveal_strlit("INSERT OR IGNORE INTO app_metadata (key, value) VALUES ('sync_device_id', ?1)");
    reveal_strlit("INSERT INTO devices (id, name, platform, app_version, last_sync_at, is_this_device, created_at, updated_at) VALUES (?1, ?2, ?3, ?4, '', 1, ?5, ?5)");
    reveal_strlit("INSERT INTO app_metadata (key, value) VALUES ('sync_device_id', ?1) ON CONFLICT(key) DO UPDATE SET value = ?1");
    assert(THIS_DEVICE_QUERY@.len() != ANCHOR_QUERY@.len());
    assert(UPDATE_DEVICE@[0] != KEEP_ANCHOR@[0]);
    assert(INSERT_DEVICE@.len() != SET_ANCHOR@.len());
}

/// The values a device row is written with: its id, name, platform and
/// version, then the time of the writing.
pub open spec fn device_fields(
    v: Seq<SqlValue>,
    id: Seq<char>,
    name: Seq<char>,
    platform: Seq<char>,
    version: Seq<char>,
) -> bool {
    &&& v.len() == 5
    &&& is_text(v[0], id)
    &&& is_text(v[1], name)
    &&& is_text(v[2], platform)
    &&& is_text(v[3], version)
    &&& v[4] is Text
}

/// What registering this device wrote, given what it found: the id of the
/// row marked as this device (`existing`) and the anchored id (`anchored`).
/// With a row, that row is refreshed under its id with the given name,
/// platform and version, and the anchor is kept or written with that id;
/// without one, a row with them is inserted and the anchor set, both under
/// one id, which is the anchored one when there is one.
pub open spec fn device_written(
    before: Seq<Event>,
    after: Seq<Event>,
    existing: Option<Seq<char>>,
    anchored: Option<Seq<char>>,
    name: Seq<char>,
    platform: Seq<char>,
    version: Seq<char>,
) -> bool {
    match existing {
        Some(id) => {
            let updates = executed(after, UPDATE_DEVICE@);
            let anchors = executed(after, KEEP_ANCHOR@);
            &&& updates.len() == executed(before, UPDATE_DEVICE@).len() + 1
            &&& device_fields(updates.last(), id, name, platform, version)
            &&& anchors.len() == executed(before, KEEP_ANCHOR@).len() + 1
            &&& anchors.last().len() == 1 && is_text(anchors.last()[0], id)
        },
        None => {
            let inserts = executed(after, INSERT_DEVICE@);
            let anchors = executed(after, SET_ANCHOR@);
            &&& inserts.len() == executed(before, INSERT_DEVICE@).len() + 1
            &&& anchors.len() == executed(before, SET_ANCHOR@).len() + 1
            &&& inserts.last().len() == 5 && anchors.last().len() == 1
            &&& match inserts.last()[0] {
                SqlValue::Text(id) => {
                    &&& device_fields(inserts.last(), id@, name, platform, version)
                    &&& is_text(anchors.last()[0], id@)
                    &&& (anchored matches Some(a) ==> id@ == a)
                },
                _ => false,
            }
        },
    }
}

pub open spec fn is_text(v: SqlValue, s: Seq<char>) -> bool {
    v matches SqlValue::Text(t) && t@ == s
}

fn device_values(id: &String, nome: &str, plataforma: &str, versao: &str, agora: &String) -> (v: Vec<
    SqlValue,
>)
    ensures
        device_fields(v@, id@, nome@, plataforma@, versao@),
        is_text(v@[4], agora@),
{
    let mut values = Vec::new();
    values.push(SqlValue::Text(id.clone()));
    values.push(SqlValue::Text(String::from_str(nome)));
    values.push(SqlValue::Text(String::from_str(plataforma)));
    values.push(SqlValue::Text(String::from_str(versao)));
    values.push(SqlValue::Text(agora.clone()));
    values
}

fn id_values(id: &String) -> (v: Vec<SqlValue>)
    ensures
        v@.len() == 1,
        is_text(v@[0], id@),
{
    let mut values = Vec::new();
    values.push(SqlValue::Text(id.clone()));
    values
}

impl SqliteStorage {
    /// Registers this device, or refreshes its name, platform and version:
    /// called at every opening, it never makes a second "this device". The
    /// id is chosen by `device_id_for`, and the anchor is written so that a
    /// lost row comes back with the same id: on success the trace shows the
    /// two reads and what `device_written` describes for their answers, the
    /// row written with the given name, platform and version.
    pub fn este_dispositivo(&self, nome: &str, plataforma: &str, versao: &str, trace: &mut Trace) -> (r:
        Result<Device, SyncError>)
        ensures
            r is Err && !r->Err_0.retryable ==> exists|detail: Seq<char>|
                r->Err_0.message@ == format_error_prefix() + detail,
            r is Ok ==> {
                let found = texts_read(final(trace).events@, THIS_DEVICE_QUERY@);
                let anchor = texts_read(final(trace).events@, ANCHOR_QUERY@);
                &&& found.len() == texts_read(old(trace).events@, THIS_DEVICE_QUERY@).len() + 1
                &&& anchor.len() == texts_read(old(trace).events@, ANCHOR_QUERY@).len() + 1
                &&& device_written(
                    old(trace).events@,
                    final(trace).events@,
                    found.last().1,
                    anchor.last().1,
                    nome@,
                    plataforma@,
                    versao@,
                )
            },
            r is Ok ==> {
                let e = final(trace).events@;
                &&& e.len() >= 2
                &&& match (e[e.len() - 2], e.last()) {
                    (Event::Execute(q1, v1), Event::ReadRows(q2, v2, rows)) => {
                        &&& q1 == KEEP_ANCHOR@ || q1 == SET_ANCHOR@
                        &&& v1.len() == 1 && v2.len() == 1
                        &&& sqlite::same_value(v1[0], v2[0])
                        &&& q2 == DEVICE_BY_ID@
                        &&& rows.len() == 1
                        &&& describes(rows[0], r->Ok_0)
                    },
                    _ => false,
                }
            },
    {
        proof {
            lemma_device_statements_differ();
        }
        let agora = match clock::now_rfc3339() {
            Ok(now) => now,
            Err(detail) => {
                let e = SyncError {
                    message: text::concatenate("Falha ao formatar data: ", detail.as_str()),
                    retryable: false,
                };
                assert(e.message@ == format_error_prefix() + detail@);
                return Err(e);
            },
        };
        let connection = self.connection();
        let no_values: Vec<SqlValue> = Vec::new();
        let ghost t0 = trace.events@;
        let found = sqlite::query_first_text_traced(connection, THIS_DEVICE_QUERY, &no_values, trace);
        proof {
            if found is Ok {
                lemma_push_filters(t0, Event::ReadOptionalText(THIS_DEVICE_QUERY@, no_values@, optional_view(found->Ok_0)));
            }
        }
        let existente = sync_sql(found)?;
        let ghost t1 = trace.events@;
        let anchor_read = sqlite::query_first_text_traced(connection, ANCHOR_QUERY, &no_values, trace);
        proof {
            if anchor_read is Ok {
                lemma_push_filters(t1, Event::ReadOptionalText(ANCHOR_QUERY@, no_values@, optional_view(anchor_read->Ok_0)));
            }
        }
        let ancorado = sync_sql(anchor_read)?;
        let ghost t2 = trace.events@;
        let ghost seen_existing = view_option(existente);
        let ghost seen_anchored = view_option(ancorado);
        proof {
            assert(texts_read(t2, THIS_DEVICE_QUERY@) == texts_read(t1, THIS_DEVICE_QUERY@));
            assert(texts_read(t2, THIS_DEVICE_QUERY@).last().1 == seen_existing);
            assert(texts_read(t2, ANCHOR_QUERY@).last().1 == seen_anchored);
        }
        let had_row = existente.is_some();
        let id = match device_id_for(existente, ancorado) {
            Some(id) => id,
            None => new_device_id(),
        };
        if had_row {
            let update = device_values(&id, nome, plataforma, versao, &agora);
            let updated = sqlite::execute_traced(connection, UPDATE_DEVICE, &update, trace);
            proof {
                lemma_push_filters(t2, Event::Execute(UPDATE_DEVICE@, update@));
            }
            let ghost t3 = trace.events@;
            sync_sql(updated)?;
            let anchor = id_values(&id);
            let kept = sqlite::execute_traced(connection, KEEP_ANCHOR, &anchor, trace);
            proof {
                lemma_push_filters(t3, Event::Execute(KEEP_ANCHOR@, anchor@));
                assert(executed(trace.events@, UPDATE_DEVICE@) == executed(t3, UPDATE_DEVICE@));
                assert(executed(t3, KEEP_ANCHOR@) == executed(t2, KEEP_ANCHOR@));
                assert(executed(t2, UPDATE_DEVICE@) == executed(t0, UPDATE_DEVICE@));
                assert(executed(t2, KEEP_ANCHOR@) == executed(t0, KEEP_ANCHOR@));
            }
            sync_sql(kept)?;
        } else {
            let transaction = sync_sql(sqlite::begin(connection))?;
            let inside = sqlite::in_transaction(&transaction);
            let insert = device_values(&id, nome, plataforma, versao, &agora);
            let inserted = sqlite::execute_traced(inside, INSERT_DEVICE, &insert, trace);
            proof {
                lemma_push_filters(t2, Event::Execute(INSERT_DEVICE@, insert@));
            }
            let ghost t3 = trace.events@;
            sync_sql(inserted)?;
            let anchor = id_values(&id);
            let set = sqlite::execute_traced(inside, SET_ANCHOR, &anchor, trace);
            proof {
                lemma_push_filters(t3, Event::Execute(SET_ANCHOR@, anchor@));
                assert(executed(trace.events@, INSERT_DEVICE@) == executed(t3, INSERT_DEVICE@));
                assert(executed(t3, SET_ANCHOR@) == executed(t2, SET_ANCHOR@));
                assert(executed(t2, INSERT_DEVICE@) == executed(t0, INSERT_DEVICE@));
                assert(executed(t2, SET_ANCHOR@) == executed(t0, SET_ANCHOR@));
            }
            sync_sql(set)?;
            sync_sql(sqlite::commit(transaction))?;
        }
        proof {
            assert(texts_read(trace.events@, THIS_DEVICE_QUERY@) == texts_read(t2, THIS_DEVICE_QUERY@));
            assert(texts_read(trace.events@, ANCHOR_QUERY@) == texts_read(t2, ANCHOR_QUERY@));
        }
        let ghost t4 = trace.events@;
        let read = read_device(connection, DEVICE_BY_ID, id.as_str(), trace);
        proof {
            if read is Ok {
                assert(trace.events@ =~= t4.push(trace.events@.last()));
                lemma_push_filters(t4, trace.events@.last());
                assert(texts_read(trace.events@, THIS_DEVICE_QUERY@) =~= texts_read(t4, THIS_DEVICE_QUERY@));
                assert(texts_read(trace.events@, ANCHOR_QUERY@) =~= texts_read(t4, ANCHOR_QUERY@));
                assert forall|q: Seq<char>| #[trigger] executed(trace.events@, q) == executed(t4, q) by {
                    assert(executed(t4, q) + Seq::<Seq<SqlValue>>::empty() =~= executed(t4, q));
                }
                assert(trace.events@[trace.events@.len() - 2] == t4.last());
            }
        }
        let row = sync_sql(read)?;
        let device = device_from_row(row);
        Ok(device)
    }

    /// Every device: this one first, then the others by latest
    /// synchronisation, then by name. The trace shows the rows read, and the
    /// devices are the ones those rows describe, in the same order.
    pub fn listar(&self, trace: &mut Trace) -> (r: Result<Vec<Device>, SyncError>)
        ensures
            r is Err ==> r->Err_0.retryable,
            r is Ok ==> {
                let e = final(trace).events@;
                &&& e.len() == old(trace).events@.len() + 1
                &&& e.drop_last() == old(trace).events@
                &&& e.last() matches Event::ReadRows(q, v, rows) && q == LIST_DEVICES@ && v.len() == 0
                    && rows.len() == r->Ok_0@.len() && forall|i: int|
                    0 <= i < rows.len() ==> describes(#[trigger] rows[i], r->Ok_0@[i])
            },
    {
        let ghost base = trace.events@;
        let no_values: Vec<SqlValue> = Vec::new();
        let read = read_devices(self.connection(), LIST_DEVICES, &no_values, trace);
        let mut rows = sync_sql(read)?;
        let ghost cells = rows@.map_values(|row: DeviceRow| device_cells(row));
        let ghost fetched = rows@;
        proof {
            assert(trace.events@.drop_last() =~= base);
        }
        let mut devices: Vec<Device> = Vec::new();
        let total = rows.len();
        let mut taken: usize = 0;
        let mut reversed: Vec<Device> = Vec::new();
        while taken < total
            invariant
                total == fetched.len(),
                cells == fetched.map_values(|row: DeviceRow| device_cells(row)),
                taken <= total,
                rows@ == fetched.take(total - taken),
                reversed@.len() == taken,
                forall|j: int| 0 <= j < taken ==> describes(cells[total - 1 - j], #[trigger] reversed@[j]),
            decreases total - taken,
        {
            let row = rows.pop().unwrap();
            proof {
                assert(row == fetched[total - 1 - taken]);
                assert(fetched.take(total - taken).drop_last() =~= fetched.take(total - taken - 1));
            }
            reversed.push(device_from_row(row));
            taken = taken + 1;
        }
        while reversed.len() > 0
            invariant
                total == fetched.len(),
                cells.len() == total,
                reversed@.len() + devices@.len() == total,
                forall|j: int| 0 <= j < reversed@.len() ==> describes(cells[total - 1 - j], #[trigger] reversed@[j]),
                forall|k: int| 0 <= k < devices@.len() ==> describes(cells[k], #[trigger] devices@[k]),
            decreases reversed@.len(),
        {
            let device = reversed.pop().unwrap();
            devices.push(device);
        }
        Ok(devices)
    }

    /// Records when a device last synchronised: the trace shows that one
    /// update, with the id and the moment.
    pub fn marcar_sync(&self, id: &str, quando: &str, trace: &mut Trace) -> (r: Result<(), SyncError>)
        ensures
            r is Err ==> r->Err_0.retryable,
            final(trace).events@.len() == old(trace).events@.len() + 1,
            final(trace).events@.drop_last() == old(trace).events@,
            final(trace).events@.last() matches Event::Execute(q, v) && q == MARK_SYNC@ && v.len() == 2
                && is_text(v[0], id@) && is_text(v[1], quando@),
    {
        let ghost base = trace.events@;
        let mut values = Vec::new();
        values.push(SqlValue::Text(String::from_str(id)));
        values.push(SqlValue::Text(String::from_str(quando)));
        let done = sqlite::execute_traced(self.connection(), MARK_SYNC, &values, trace);
        proof {
            assert(trace.events@.drop_last() =~= base);
        }
        sync_sql(done)?;
        Ok(())
    }
}

} // verus!
