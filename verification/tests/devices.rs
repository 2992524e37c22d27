use std::path::Path;

use mos_storage_sqlite::schema::SCHEMA_VERSION;
use mos_storage_sqlite::storage::SqliteStorage;
use mos_storage_sqlite::device::erro_lock;
use mos_storage_sqlite::sqlite::Trace;

const SCHEMA: &str = "
CREATE TABLE captures (id TEXT PRIMARY KEY);
CREATE TABLE projects (id TEXT PRIMARY KEY);
CREATE TABLE tasks (id TEXT PRIMARY KEY);
CREATE TABLE apps (id TEXT PRIMARY KEY);
CREATE TABLE workspaces (id TEXT PRIMARY KEY);
CREATE TABLE resources (id TEXT PRIMARY KEY);
CREATE TABLE ingestions (id TEXT PRIMARY KEY);
CREATE TABLE message_parts (id TEXT PRIMARY KEY);
CREATE VIRTUAL TABLE capture_search USING fts5(content);
CREATE VIRTUAL TABLE project_search USING fts5(content);
CREATE VIRTUAL TABLE task_search USING fts5(content);
CREATE VIRTUAL TABLE app_search USING fts5(content);
CREATE VIRTUAL TABLE workspace_search USING fts5(content);
CREATE VIRTUAL TABLE resource_search USING fts5(content);
CREATE VIRTUAL TABLE ingestion_search USING fts5(content);
CREATE VIRTUAL TABLE message_search USING fts5(content);
CREATE TABLE devices (id TEXT PRIMARY KEY, name TEXT NOT NULL, platform TEXT NOT NULL, app_version TEXT NOT NULL, last_sync_at TEXT NOT NULL, is_this_device INTEGER NOT NULL, created_at TEXT NOT NULL, updated_at TEXT NOT NULL);
CREATE TABLE app_metadata (key TEXT PRIMARY KEY, value TEXT NOT NULL);
";

fn migrations() -> Vec<String> {
    (1..=SCHEMA_VERSION)
        .map(|n| {
            if n == 1 {
                format!("{SCHEMA}\nPRAGMA user_version = 1;")
            } else {
                format!("PRAGMA user_version = {n};")
            }
        })
        .collect()
}

fn storage(pasta: &Path) -> SqliteStorage {
    SqliteStorage::open(
        pasta.join("mos.db").to_str().unwrap(),
        pasta.to_str().unwrap(),
        &migrations(),
    )
    .unwrap()
}

fn ancora(storage: &SqliteStorage) -> String {
    storage
        .connection()
        .query_row(
            "SELECT value FROM app_metadata WHERE key = 'sync_device_id'",
            [],
            |linha| linha.get(0),
        )
        .expect("a ancora nao foi gravada")
}

#[test]
fn um_dispositivo_que_perdeu_a_linha_volta_com_o_mesmo_id() {
    let pasta = tempfile::tempdir().unwrap();
    let storage = storage(pasta.path());
    let antes = storage.este_dispositivo("PC", "windows", "0.3.5", &mut Trace::new()).unwrap();
    storage
        .connection()
        .execute("DELETE FROM devices WHERE is_this_device = 1", [])
        .unwrap();
    let depois = storage.este_dispositivo("PC", "windows", "0.3.5", &mut Trace::new()).unwrap();
    assert_eq!(
        antes.id, depois.id,
        "o dispositivo nasceu de novo: o cursor e o relogio iriam junto"
    );
}

#[test]
fn um_banco_antigo_ganha_a_ancora_na_primeira_abertura() {
    let pasta = tempfile::tempdir().unwrap();
    let storage = storage(pasta.path());
    let antes = storage.este_dispositivo("PC", "windows", "0.3.6", &mut Trace::new()).unwrap();
    storage
        .connection()
        .execute("DELETE FROM app_metadata WHERE key = 'sync_device_id'", [])
        .unwrap();
    storage.este_dispositivo("PC", "windows", "0.3.6", &mut Trace::new()).unwrap();
    assert_eq!(ancora(&storage), antes.id);
}

#[test]
fn a_ancora_guarda_o_id_do_primeiro_registro() {
    let pasta = tempfile::tempdir().unwrap();
    let storage = storage(pasta.path());
    let device = storage.este_dispositivo("PC", "windows", "0.3.5", &mut Trace::new()).unwrap();
    assert_eq!(ancora(&storage), device.id);
}

#[test]
fn this_device_is_registered_once_and_refreshed() {
    let pasta = tempfile::tempdir().unwrap();
    let storage = storage(pasta.path());
    let first = storage.este_dispositivo("PC", "windows", "0.2.0", &mut Trace::new()).unwrap();
    assert!(first.is_this_device);
    let again = storage.este_dispositivo("PC do trabalho", "windows", "0.2.1", &mut Trace::new()).unwrap();
    assert_eq!(again.id, first.id);
    assert_eq!(again.name, "PC do trabalho");
    assert_eq!(again.app_version, "0.2.1");
    assert_eq!(storage.listar(&mut Trace::new()).unwrap().len(), 1);
}

#[test]
fn an_existing_row_keeps_its_id_and_gets_the_anchor() {
    let pasta = tempfile::tempdir().unwrap();
    let storage = storage(pasta.path());
    storage
        .connection()
        .execute(
            "INSERT INTO devices VALUES ('0198a7d5-a64e-7000-8000-000000000001', 'PC', 'windows', '0.1', '', 1, '', '')",
            [],
        )
        .unwrap();
    let device = storage.este_dispositivo("PC", "windows", "0.2.0", &mut Trace::new()).unwrap();
    assert_eq!(device.id, "0198a7d5-a64e-7000-8000-000000000001");
    assert_eq!(ancora(&storage), "0198a7d5-a64e-7000-8000-000000000001");
    storage
        .marcar_sync("0198a7d5-a64e-7000-8000-000000000001", "2026-09-02T10:00:00Z", &mut Trace::new())
        .unwrap();
    assert_eq!(storage.listar(&mut Trace::new()).unwrap()[0].last_sync_at, "2026-09-02T10:00:00Z");
}

#[test]
fn stored_ids_are_read_back_in_canonical_form() {
    let pasta = tempfile::tempdir().unwrap();
    let storage = storage(pasta.path());
    storage
        .connection()
        .execute_batch(
            "INSERT INTO devices VALUES ('0198A7D5-A64E-7000-8000-00000000000A', 'Mac', 'macos', '0.1', '2026-09-01', 0, '', '');
             INSERT INTO devices VALUES ('nao-e-uuid', 'Velho', 'ios', '0.1', '2026-08-01', 0, '', '');",
        )
        .unwrap();
    let devices = storage.listar(&mut Trace::new()).unwrap();
    assert_eq!(devices.len(), 2);
    assert_eq!(devices[0].id, "0198a7d5-a64e-7000-8000-00000000000a");
    assert_eq!(devices[1].id, "00000000-0000-0000-0000-000000000000");
    assert!(!devices[0].is_this_device);
}

#[test]
fn a_poisoned_lock_is_not_worth_retrying() {
    let error = erro_lock();
    assert!(!error.retryable);
    assert_eq!(error.message, "A conexao com o banco local ficou envenenada.");
}

#[test]
fn refreshing_this_device_writes_each_field_in_its_place() {
    let pasta = tempfile::tempdir().unwrap();
    let storage = storage(pasta.path());
    storage.este_dispositivo("PC", "windows", "0.2.0", &mut Trace::new()).unwrap();
    let again = storage.este_dispositivo("Notebook", "linux", "0.3.0", &mut Trace::new()).unwrap();
    assert_eq!(again.name, "Notebook");
    assert_eq!(again.platform, "linux");
    assert_eq!(again.app_version, "0.3.0");
}
