use std::path::Path;

use mos_storage_sqlite::academic::{ProviderConnection, SyncOutcome};
use mos_storage_sqlite::academic_provider::{
    dono_por_referencia, gravar_ref, ler_refs, marcar_ausente, status_from_rows, tocar_ref, ExternalKind,
    Missing, ProviderStateRow,
};
use mos_storage_sqlite::backup::validate_extracted_database;
use mos_storage_sqlite::backup::new_manifest;
use mos_storage_sqlite::cronocad::open_source;
use mos_storage_sqlite::error::ErrorCode;
use mos_storage_sqlite::daily::{
    NewDailyObjective, NewDailyReflection, NewDailySession, ObjectiveStatus, SessionStatus,
};
use mos_storage_sqlite::ingestion::{
    added_links, delete_ingestion_search, expect_state, has_project_link, has_workspace_link,
    insert_ingestion_search, mark_capture_processed,
};
use mos_storage_sqlite::apps::{delete_app_search, ensure_app_changed, insert_app_search};
use mos_storage_sqlite::meeting::{
    audio_directory_of, evidence_error, index_meeting, insight_seq, next_insight_seq, AnalysisRecord,
    BookmarkRecord, EvidenceRecord, InsightRecord,
};
use mos_storage_sqlite::error::CoreError;
use mos_storage_sqlite::attention::{settings_from_row, settings_row, AttentionSettings, QuietHours};
use mos_storage_sqlite::conversation::{last_text, message_count, message_position};
use mos_storage_sqlite::schema::SCHEMA_VERSION;
use mos_storage_sqlite::sqlite::Trace;
use mos_storage_sqlite::storage::{
    configure_connection, contagem_de_orfas, migrate, rebuild_search_projection,
    verify_foreign_keys, verify_integrity, SqliteStorage,
};
use rusqlite::Connection;

const SCHEMA: &str = "
CREATE TABLE captures (id TEXT PRIMARY KEY, content TEXT NOT NULL DEFAULT '', processing_state TEXT NOT NULL DEFAULT 'inbox', updated_at TEXT NOT NULL DEFAULT '');
CREATE TABLE projects (id TEXT PRIMARY KEY);
CREATE TABLE tasks (id TEXT PRIMARY KEY, project_id TEXT REFERENCES projects(id));
CREATE TABLE apps (id TEXT PRIMARY KEY, name TEXT NOT NULL DEFAULT '', description TEXT NOT NULL DEFAULT '', launch_target TEXT NOT NULL DEFAULT '');
CREATE TABLE workspaces (id TEXT PRIMARY KEY);
CREATE TABLE resources (id TEXT PRIMARY KEY, lifecycle_state TEXT NOT NULL DEFAULT 'active');
CREATE TABLE ingestions (id TEXT PRIMARY KEY, state TEXT NOT NULL, capture_id TEXT, original_name TEXT NOT NULL DEFAULT '', extracted_text TEXT NOT NULL DEFAULT '', added_project_link INTEGER NOT NULL DEFAULT 0, added_workspace_link INTEGER NOT NULL DEFAULT 0, sha256 TEXT NOT NULL DEFAULT '', resource_id TEXT, created_at TEXT NOT NULL DEFAULT '');
CREATE TABLE attention_settings (id INTEGER PRIMARY KEY, quiet_enabled INTEGER NOT NULL DEFAULT 1, quiet_start_minute INTEGER NOT NULL DEFAULT 1320, quiet_end_minute INTEGER NOT NULL DEFAULT 420, quiet_allow_urgent INTEGER NOT NULL DEFAULT 0, os_channel_enabled INTEGER NOT NULL DEFAULT 1, local_offset_minutes INTEGER NOT NULL DEFAULT 0);
INSERT INTO attention_settings (id) VALUES (1);
CREATE TABLE conversations (id TEXT PRIMARY KEY, title TEXT NOT NULL DEFAULT '', updated_at TEXT NOT NULL DEFAULT '');
CREATE TABLE messages (id TEXT PRIMARY KEY, conversation_id TEXT NOT NULL REFERENCES conversations(id) ON DELETE CASCADE, seq INTEGER NOT NULL, status TEXT NOT NULL DEFAULT 'complete');
CREATE TABLE message_parts (id TEXT PRIMARY KEY, message_id TEXT REFERENCES messages(id) ON DELETE CASCADE, seq INTEGER NOT NULL DEFAULT 0, search_text TEXT NOT NULL DEFAULT '');
CREATE VIRTUAL TABLE capture_search USING fts5(content);
CREATE VIRTUAL TABLE project_search USING fts5(content);
CREATE VIRTUAL TABLE task_search USING fts5(content);
CREATE VIRTUAL TABLE app_search USING fts5(name, description, launch_target, content='apps', content_rowid='rowid');
CREATE VIRTUAL TABLE workspace_search USING fts5(content);
CREATE VIRTUAL TABLE resource_search USING fts5(content);
CREATE VIRTUAL TABLE ingestion_search USING fts5(original_name, extracted_text, content='ingestions', content_rowid='rowid');
CREATE VIRTUAL TABLE message_search USING fts5(content);
CREATE TABLE resource_projects (resource_id TEXT NOT NULL, project_id TEXT NOT NULL);
CREATE TABLE resource_workspaces (resource_id TEXT NOT NULL, workspace_id TEXT NOT NULL);
CREATE TABLE tracking_settings (id INTEGER PRIMARY KEY, cronocad_imported_at TEXT,
  rounding_enabled INTEGER NOT NULL DEFAULT 0, rounding_interval_minutes INTEGER NOT NULL DEFAULT 15,
  rounding_mode TEXT NOT NULL DEFAULT 'nearest', idle_threshold_minutes INTEGER NOT NULL DEFAULT 5,
  idle_detection_enabled INTEGER NOT NULL DEFAULT 1, process_monitoring_enabled INTEGER NOT NULL DEFAULT 1,
  process_check_interval_seconds INTEGER NOT NULL DEFAULT 10, remind_on_monitored_open INTEGER NOT NULL DEFAULT 0,
  remind_on_monitored_close INTEGER NOT NULL DEFAULT 0, issuer_name TEXT NOT NULL DEFAULT '',
  issuer_document TEXT NOT NULL DEFAULT '', issuer_contact TEXT NOT NULL DEFAULT '');
INSERT INTO tracking_settings (id) VALUES (1);
CREATE TABLE clients (id TEXT PRIMARY KEY, name TEXT NOT NULL, company_name TEXT, email TEXT, phone TEXT, notes TEXT, created_at TEXT NOT NULL, updated_at TEXT NOT NULL, archived_at TEXT);
CREATE TABLE monitored_apps (id TEXT PRIMARY KEY, display_name TEXT NOT NULL, process_name TEXT NOT NULL UNIQUE, enabled INTEGER NOT NULL, remind_on_open INTEGER NOT NULL, remind_on_close INTEGER NOT NULL, created_at TEXT NOT NULL, updated_at TEXT NOT NULL);
INSERT INTO monitored_apps VALUES ('seed-acad', 'AutoCAD', 'acad.exe', 1, 0, 0, '2026-01-01', '2026-01-01');
CREATE TABLE activity_events (id TEXT PRIMARY KEY, event_type TEXT NOT NULL, process_name TEXT, detected_at TEXT NOT NULL, metadata_json TEXT, processed INTEGER NOT NULL, created_at TEXT NOT NULL);
CREATE TABLE devices (id TEXT PRIMARY KEY, name TEXT NOT NULL, platform TEXT NOT NULL, app_version TEXT NOT NULL, last_sync_at TEXT NOT NULL, is_this_device INTEGER NOT NULL, created_at TEXT NOT NULL, updated_at TEXT NOT NULL);
CREATE TABLE app_metadata (key TEXT PRIMARY KEY, value TEXT NOT NULL);
CREATE TABLE daily_sessions (id TEXT PRIMARY KEY, day TEXT NOT NULL UNIQUE, status TEXT NOT NULL, note TEXT NOT NULL DEFAULT '', started_at TEXT NOT NULL, ended_at TEXT, created_at TEXT NOT NULL, updated_at TEXT NOT NULL);
CREATE TABLE daily_objectives (id TEXT PRIMARY KEY, carried_from TEXT, session_id TEXT, title TEXT NOT NULL DEFAULT '', description TEXT NOT NULL DEFAULT '', link_kind TEXT, link_id TEXT, priority TEXT NOT NULL DEFAULT 'secondary', status TEXT NOT NULL DEFAULT 'pending', position INTEGER NOT NULL DEFAULT 0, created_at TEXT NOT NULL DEFAULT '', updated_at TEXT NOT NULL DEFAULT '', completed_at TEXT);
CREATE TABLE daily_reflections (session_id TEXT PRIMARY KEY, mood TEXT, summary TEXT NOT NULL, created_at TEXT NOT NULL, updated_at TEXT NOT NULL);
CREATE TABLE meetings (id TEXT PRIMARY KEY, title TEXT NOT NULL, audio_dir TEXT NOT NULL);
CREATE TABLE meeting_insights (id TEXT PRIMARY KEY, meeting_id TEXT NOT NULL REFERENCES meetings(id) ON DELETE CASCADE, seq INTEGER NOT NULL, text TEXT NOT NULL DEFAULT '', kind TEXT NOT NULL DEFAULT 'action', owner TEXT, due_hint TEXT, confidence TEXT NOT NULL DEFAULT 'high', status TEXT NOT NULL DEFAULT 'proposed', origin TEXT NOT NULL DEFAULT 'spoken', due_at TEXT, due_confidence TEXT);
CREATE TABLE meeting_evidence (insight_id TEXT NOT NULL REFERENCES meeting_insights(id) ON DELETE CASCADE, segment_id TEXT NOT NULL REFERENCES meeting_segments(id) ON DELETE CASCADE, seq INTEGER NOT NULL, char_start INTEGER, char_end INTEGER);
CREATE TABLE meeting_analyses (meeting_id TEXT PRIMARY KEY REFERENCES meetings(id) ON DELETE CASCADE, summary TEXT NOT NULL, model TEXT NOT NULL DEFAULT '', produced_at TEXT NOT NULL DEFAULT '', windows INTEGER NOT NULL DEFAULT 0);
CREATE TABLE meeting_segments (id TEXT PRIMARY KEY, meeting_id TEXT NOT NULL REFERENCES meetings(id) ON DELETE CASCADE, seq INTEGER NOT NULL, text TEXT NOT NULL, start_ms INTEGER NOT NULL DEFAULT 0);
CREATE VIRTUAL TABLE meeting_search USING fts5(title, summary, insights);
CREATE TABLE meeting_search_index (rowid INTEGER PRIMARY KEY, meeting_id TEXT NOT NULL);
CREATE VIRTUAL TABLE meeting_transcript_search USING fts5(text);
CREATE TABLE meeting_transcript_index (rowid INTEGER PRIMARY KEY, meeting_id TEXT NOT NULL, segment_id TEXT NOT NULL);
CREATE TABLE meeting_bookmarks (id TEXT PRIMARY KEY, meeting_id TEXT NOT NULL, at_ms INTEGER NOT NULL DEFAULT 0, note TEXT NOT NULL DEFAULT '', created_at TEXT NOT NULL DEFAULT '');
CREATE TABLE meeting_guardian_events (id TEXT PRIMARY KEY, kind TEXT NOT NULL);
CREATE TABLE academic_external_refs (provider TEXT NOT NULL, kind TEXT NOT NULL, external_id TEXT NOT NULL, local_id TEXT NOT NULL, payload_hash TEXT NOT NULL, unavailable_since TEXT, first_synced_at TEXT NOT NULL, last_synced_at TEXT NOT NULL, PRIMARY KEY (provider, kind, external_id));
CREATE TABLE academic_exams (id TEXT PRIMARY KEY, subject_id TEXT NOT NULL);
CREATE TABLE academic_assignments (id TEXT PRIMARY KEY, subject_id TEXT NOT NULL);
CREATE TABLE academic_subject_resources (subject_id TEXT NOT NULL, resource_id TEXT NOT NULL);
CREATE TABLE academic_material_urls (provider TEXT NOT NULL, external_id TEXT NOT NULL, url TEXT NOT NULL);
CREATE TABLE academic_provider_subject_facts (provider TEXT NOT NULL, subject_id TEXT NOT NULL);
CREATE TABLE academic_provider_state (provider TEXT PRIMARY KEY, connection TEXT NOT NULL, course_name TEXT NOT NULL DEFAULT '', last_sync_at TEXT, last_outcome TEXT, created_at TEXT NOT NULL, updated_at TEXT NOT NULL);
";

/// Thirty migrations: the first creates the tables the tests use, and each
/// one records its number.
fn migrations() -> Vec<String> {
    (1..=SCHEMA_VERSION)
        .map(|n| {
            if n == 1 {
                format!("{SCHEMA}\nPRAGMA user_version = 1;")
            } else {
                format!("PRAGMA user_version = {n};")
            }
        })
        .collect()
}

/// The database and its backups share the (existing) temporary directory.
fn open(dir: &Path) -> SqliteStorage {
    let database = dir.join("mos.db");
    SqliteStorage::open(database.to_str().unwrap(), dir.to_str().unwrap(), &migrations()).unwrap()
}

/// A database stopped at `version`, built by running the first migrations.
fn database_at(dir: &Path, version: u32) -> (String, String) {
    let database = dir.join("mos.db");
    let backups = dir.to_path_buf();
    let connection = Connection::open(&database).unwrap();
    configure_connection(&connection, &mut Trace::new()).unwrap();
    for script in migrations().iter().take(version as usize) {
        connection.execute_batch(script).unwrap();
    }
    (database.to_str().unwrap().to_string(), backups.to_str().unwrap().to_string())
}

fn now() -> i64 {
    std::time::SystemTime::now()
        .duration_since(std::time::UNIX_EPOCH)
        .unwrap()
        .as_secs() as i64
}

/// How many pre-migration snapshots of `version` were taken between two
/// instants.
fn snapshots(backups: &str, version: u32, from: i64, to: i64) -> usize {
    (from..=to)
        .filter(|t| Path::new(backups).join(format!("pre-migration-v{version}-{t}.db")).exists())
        .count()
}

#[test]
fn a_fresh_database_opens_durable_and_current() {
    let dir = tempfile::tempdir().unwrap();
    let from = now();
    let storage = open(dir.path());
    let to = now();
    let health = storage.health(&mut Trace::new()).unwrap();
    assert_eq!(health.schema_version, SCHEMA_VERSION);
    assert_eq!(health.journal_mode, "wal");
    assert_eq!(health.synchronous, "FULL");
    assert_eq!(health.integrity, "ok");
    assert!(health.database_path.ends_with("mos.db"));
    assert_eq!(snapshots(storage.backup_directory(), 0, from, to), 0);
}

#[test]
fn reopening_a_current_database_changes_nothing() {
    let dir = tempfile::tempdir().unwrap();
    drop(open(dir.path()));
    let from = now();
    let storage = open(dir.path());
    let to = now();
    assert_eq!(storage.health(&mut Trace::new()).unwrap().schema_version, SCHEMA_VERSION);
    assert_eq!(snapshots(storage.backup_directory(), SCHEMA_VERSION, from, to), 0);
}

#[test]
fn upgrading_an_older_database_keeps_its_data_and_takes_a_snapshot() {
    let dir = tempfile::tempdir().unwrap();
    let (database, backups) = database_at(dir.path(), 16);
    {
        let connection = Connection::open(&database).unwrap();
        connection
            .execute("INSERT INTO captures (id, content) VALUES ('c1', 'Sobreviveu ao upgrade')", [])
            .unwrap();
    }
    let from = now();
    let storage = SqliteStorage::open(&database, &backups, &migrations()).unwrap();
    let to = now();
    assert_eq!(storage.health(&mut Trace::new()).unwrap().schema_version, SCHEMA_VERSION);
    assert_eq!(storage.capture_count(&mut Trace::new()).unwrap(), 1);
    assert_eq!(snapshots(&backups, 16, from, to), 1);
}

#[test]
fn a_database_from_a_newer_build_is_refused() {
    let dir = tempfile::tempdir().unwrap();
    let (database, backups) = database_at(dir.path(), 30);
    {
        let connection = Connection::open(&database).unwrap();
        connection.execute_batch("PRAGMA user_version = 31;").unwrap();
    }
    let refused = SqliteStorage::open(&database, &backups, &migrations()).err().unwrap();
    assert_eq!(refused.code, ErrorCode::StorageUnavailable);
    assert_eq!(refused.message, "O banco local foi criado por uma versao mais nova do M/OS.");
}

#[test]
fn old_orphans_do_not_block_the_next_migration() {
    let dir = tempfile::tempdir().unwrap();
    let (database, backups) = database_at(dir.path(), 29);
    {
        // A cleanup made outside the app, where foreign keys are off by default.
        let connection = Connection::open(&database).unwrap();
        connection
            .execute_batch(
                "PRAGMA foreign_keys=OFF;
                 INSERT INTO tasks (id, project_id) VALUES ('t1', 'gone'), ('t2', 'gone');",
            )
            .unwrap();
    }
    let storage = SqliteStorage::open(&database, &backups, &migrations()).unwrap();
    assert_eq!(storage.health(&mut Trace::new()).unwrap().schema_version, SCHEMA_VERSION);
    assert_eq!(contagem_de_orfas(storage.connection(), &mut Trace::new()).unwrap(), vec![("tasks".to_string(), 2)]);
}

#[test]
fn a_migration_that_leaves_orphans_is_refused() {
    let dir = tempfile::tempdir().unwrap();
    let (database, backups) = database_at(dir.path(), 29);
    let mut scripts = migrations();
    scripts[29] = "PRAGMA foreign_keys=OFF;
                   INSERT INTO tasks (id, project_id) VALUES ('t9', 'missing');
                   PRAGMA foreign_keys=ON;
                   PRAGMA user_version = 30;"
        .to_string();
    let refused = SqliteStorage::open(&database, &backups, &scripts).err().unwrap();
    assert_eq!(refused.code, ErrorCode::DataIntegrity);
    assert_eq!(refused.message, "Esta migration deixou referencias orfas em: tasks (1 a mais).");
}

#[test]
fn a_migration_that_turns_foreign_keys_off_is_refused() {
    let dir = tempfile::tempdir().unwrap();
    let (database, backups) = database_at(dir.path(), 29);
    let mut scripts = migrations();
    scripts[29] = "PRAGMA foreign_keys=OFF; PRAGMA user_version = 30;".to_string();
    let refused = SqliteStorage::open(&database, &backups, &scripts).err().unwrap();
    assert_eq!(refused.code, ErrorCode::DataIntegrity);
    assert_eq!(refused.message, "Uma migration deixou as foreign keys desligadas.");
}

#[test]
fn a_drifted_search_projection_is_rebuilt_on_open() {
    let dir = tempfile::tempdir().unwrap();
    let storage = open(dir.path());
    storage
        .connection()
        .execute("INSERT INTO captures (id, content) VALUES ('c1', 'texto')", [])
        .unwrap();
    drop(storage);
    // The projection holds fewer rows than its table: the opening rebuilds it
    // instead of refusing.
    let storage = open(dir.path());
    assert_eq!(rebuild_search_projection(storage.connection(), &mut Trace::new()).unwrap(), 0);
    assert!(verify_integrity(storage.connection(), &mut Trace::new()).is_ok());
}

#[test]
fn a_snapshot_restores_over_the_database() {
    let dir = tempfile::tempdir().unwrap();
    let mut storage = open(dir.path());
    storage
        .connection()
        .execute("INSERT INTO captures (id, content) VALUES ('c1', 'Anterior')", [])
        .unwrap();
    let snapshot = dir.path().join("snapshot.db");
    storage.snapshot_to(snapshot.to_str().unwrap(), &mut Trace::new()).unwrap();
    storage
        .connection()
        .execute("INSERT INTO captures (id, content) VALUES ('c2', 'Posterior')", [])
        .unwrap();
    assert_eq!(storage.capture_count(&mut Trace::new()).unwrap(), 2);
    let manifest = new_manifest("2026-08-19T00:00:00Z".into(), 1, "x".into(), 0);
    validate_extracted_database(snapshot.to_str().unwrap(), &manifest, &mut Trace::new()).unwrap();
    storage.restore_database(snapshot.to_str().unwrap(), &migrations()).unwrap();
    assert_eq!(storage.capture_count(&mut Trace::new()).unwrap(), 1);
}

#[test]
fn a_snapshot_that_does_not_match_its_manifest_is_refused() {
    let dir = tempfile::tempdir().unwrap();
    let storage = open(dir.path());
    let snapshot = dir.path().join("snapshot.db");
    storage.snapshot_to(snapshot.to_str().unwrap(), &mut Trace::new()).unwrap();
    let manifest = new_manifest("2026-08-19T00:00:00Z".into(), 5, "x".into(), 0);
    let refused = validate_extracted_database(snapshot.to_str().unwrap(), &manifest, &mut Trace::new()).unwrap_err();
    assert_eq!(refused.code, ErrorCode::BackupInvalid);
}

// ---------------------------------------------------------------- cronocad

fn cronocad_source(dir: &Path) -> String {
    let path = dir.join("cronocad.sqlite");
    let connection = Connection::open(&path).unwrap();
    connection
        .execute_batch(
            "CREATE TABLE clients (id TEXT PRIMARY KEY, name TEXT NOT NULL, company_name TEXT, email TEXT, phone TEXT, notes TEXT, created_at TEXT NOT NULL, updated_at TEXT NOT NULL, archived_at TEXT);
             INSERT INTO clients VALUES ('cl1', 'Juliano', 'POA', NULL, NULL, NULL, '2026-01-01', '2026-01-01', NULL);
             INSERT INTO clients VALUES ('cl2', 'Matheus', NULL, 'contato@exemplo.com', NULL, NULL, '2026-01-01', '2026-01-01', NULL);
             CREATE TABLE monitored_apps (id TEXT PRIMARY KEY, display_name TEXT NOT NULL, process_name TEXT NOT NULL, enabled INTEGER NOT NULL, remind_on_open INTEGER NOT NULL, remind_on_close INTEGER NOT NULL, created_at TEXT NOT NULL, updated_at TEXT NOT NULL);
             INSERT INTO monitored_apps VALUES ('m1', 'AutoCAD', 'acad.exe', 0, 1, 1, '2026-01-01', '2026-02-01');
             INSERT INTO monitored_apps VALUES ('m2', 'SketchUp', 'sketchup.exe', 1, 0, 0, '2026-01-01', '2026-02-01');
             CREATE TABLE activity_events (id TEXT PRIMARY KEY, event_type TEXT NOT NULL, process_name TEXT, detected_at TEXT NOT NULL, metadata_json TEXT, processed INTEGER NOT NULL, created_at TEXT NOT NULL);
             INSERT INTO activity_events VALUES ('e1', 'opened', 'acad.exe', '2026-01-02', NULL, 0, '2026-01-02');
             CREATE TABLE settings (id INTEGER PRIMARY KEY, rounding_enabled INTEGER, rounding_interval_minutes INTEGER, rounding_mode TEXT, idle_threshold_minutes INTEGER, idle_detection_enabled INTEGER, process_monitoring_enabled INTEGER, process_check_interval_seconds INTEGER, remind_when_monitored_app_opens INTEGER, remind_when_monitored_app_closes INTEGER, issuer_name TEXT, issuer_document TEXT, issuer_contact TEXT);
             INSERT INTO settings VALUES (1, 0, 30, 'up', 10, 1, 1, 15, 1, 0, 'Matheus Mendes', '000.000.000-00', NULL);",
        )
        .unwrap();
    path.to_str().unwrap().to_string()
}

#[test]
fn the_history_and_the_monitored_apps_come_across() {
    let dir = tempfile::tempdir().unwrap();
    let storage = open(dir.path());
    let source = cronocad_source(dir.path());
    let origin = open_source(&source).unwrap();
    assert_eq!(storage.copy_clients(&origin, &mut Trace::new()).unwrap(), 2);
    assert_eq!(storage.copy_monitored_apps(&origin, &mut Trace::new()).unwrap(), 2);
    assert_eq!(storage.copy_activity_events(&origin, &mut Trace::new()).unwrap(), 1);
    storage.copy_preferences(&origin, &mut Trace::new()).unwrap();
    let connection = storage.connection();
    let apps: i64 = connection.query_row("SELECT count(*) FROM monitored_apps", [], |r| r.get(0)).unwrap();
    assert_eq!(apps, 2, "the user's tool came in without duplicating AutoCAD");
    let enabled: i64 = connection
        .query_row("SELECT enabled FROM monitored_apps WHERE process_name = 'acad.exe'", [], |r| r.get(0))
        .unwrap();
    assert_eq!(enabled, 0, "the user's choice won over the seed");
    let (interval, issuer, contact): (i64, String, String) = connection
        .query_row(
            "SELECT rounding_interval_minutes, issuer_name, issuer_contact FROM tracking_settings WHERE id = 1",
            [],
            |r| Ok((r.get(0)?, r.get(1)?, r.get(2)?)),
        )
        .unwrap();
    assert_eq!(interval, 30);
    assert_eq!(issuer, "Matheus Mendes");
    assert_eq!(contact, "");
}

#[test]
fn the_import_mark_refuses_a_second_import() {
    let dir = tempfile::tempdir().unwrap();
    let storage = open(dir.path());
    assert_eq!(storage.cronocad_imported_at(&mut Trace::new()).unwrap(), None);
    assert!(storage.ensure_not_imported(&mut Trace::new()).is_ok());
    storage.mark_cronocad_imported(&mut Trace::new()).unwrap();
    assert!(storage.cronocad_imported_at(&mut Trace::new()).unwrap().is_some());
    let refused = storage.ensure_not_imported(&mut Trace::new()).unwrap_err();
    assert_eq!(refused.code, ErrorCode::InvalidInput);
    assert!(refused.message.contains("ja foi importado"), "{}", refused.message);
}

#[test]
fn a_missing_source_is_not_created() {
    let dir = tempfile::tempdir().unwrap();
    let missing = dir.path().join("nao-existe.sqlite");
    assert!(open_source(missing.to_str().unwrap()).is_err());
    assert!(!missing.exists());
}

// ---------------------------------------------------------------- repositories

#[test]
fn the_carry_chain_is_counted_and_bounded() {
    let dir = tempfile::tempdir().unwrap();
    let storage = open(dir.path());
    storage
        .connection()
        .execute_batch(
            "INSERT INTO daily_objectives (id, carried_from) VALUES ('a', NULL), ('b', 'a'), ('c', 'b');
             INSERT INTO daily_objectives (id, carried_from) VALUES ('x', 'y'), ('y', 'x');",
        )
        .unwrap();
    assert_eq!(storage.carry_depth("c", &mut Trace::new()).unwrap(), 2);
    assert_eq!(storage.carry_depth("a", &mut Trace::new()).unwrap(), 0);
    assert_eq!(storage.carry_depth("missing", &mut Trace::new()).unwrap(), 0);
    assert_eq!(storage.carry_depth("x", &mut Trace::new()).unwrap(), 365);
}

#[test]
fn insight_numbers_continue_after_the_largest() {
    let dir = tempfile::tempdir().unwrap();
    let storage = open(dir.path());
    assert_eq!(next_insight_seq(storage.connection(), "m1", &mut Trace::new()).unwrap(), 0);
    storage
        .connection()
        .execute_batch(
            "INSERT INTO meetings VALUES ('m1', 'Sprint', '/audio/m1');
             INSERT INTO meeting_insights (id, meeting_id, seq) VALUES ('i1', 'm1', 0), ('i2', 'm1', 4);",
        )
        .unwrap();
    assert_eq!(next_insight_seq(storage.connection(), "m1", &mut Trace::new()).unwrap(), 5);
}

#[test]
fn ingestion_steps_check_the_stored_state() {
    let dir = tempfile::tempdir().unwrap();
    let storage = open(dir.path());
    let connection = storage.connection();
    connection
        .execute_batch(
            "INSERT INTO ingestions (id, state, added_project_link) VALUES ('g1', 'preserved', 1);
             INSERT INTO resource_projects VALUES ('r1', 'p1');",
        )
        .unwrap();
    assert!(expect_state(connection, "g1", &vec!["receiving", "preserved"], &mut Trace::new()).is_ok());
    assert_eq!(
        expect_state(connection, "g1", &vec!["receiving"], &mut Trace::new()).unwrap_err().code,
        ErrorCode::InvalidTransition
    );
    assert_eq!(expect_state(connection, "nope", &vec!["receiving"], &mut Trace::new()).unwrap_err().code, ErrorCode::NotFound);
    assert_eq!(added_links(connection, "g1", &mut Trace::new()).unwrap(), (true, false));
    assert!(has_project_link(connection, "r1", "p1", &mut Trace::new()).unwrap());
    assert!(!has_project_link(connection, "r1", "p2", &mut Trace::new()).unwrap());
    assert_eq!(
        storage.rebuild_ingestion_search(&mut Trace::new()).unwrap(),
        1,
        "the index is rebuilt from the one ingestion"
    );
}

#[test]
fn provider_references_are_marked_and_never_deleted() {
    let dir = tempfile::tempdir().unwrap();
    let storage = open(dir.path());
    let connection = storage.connection();
    gravar_ref(connection, "uninter", ExternalKind::Subject, "S1", "sub-1", "h", "2026-01-01", &mut Trace::new()).unwrap();
    gravar_ref(connection, "uninter", ExternalKind::Exam, "E1", "exam-1", "h", "2026-01-01", &mut Trace::new()).unwrap();
    connection.execute("INSERT INTO academic_exams VALUES ('exam-1', 'sub-1')", []).unwrap();
    assert_eq!(
        dono_por_referencia(connection, "uninter", ExternalKind::Exam, &mut Trace::new()).unwrap(),
        vec![("E1".to_string(), "S1".to_string())]
    );
    assert!(dono_por_referencia(connection, "uninter", ExternalKind::Subject, &mut Trace::new()).unwrap().is_empty());
    let missing = vec![Missing { kind: ExternalKind::Exam, external_id: "E1".into() }];
    assert_eq!(marcar_ausente(connection, "uninter", &missing, "2026-02-01", &mut Trace::new()).unwrap(), 1);
    assert_eq!(marcar_ausente(connection, "uninter", &missing, "2026-02-02", &mut Trace::new()).unwrap(), 0);
    tocar_ref(connection, "uninter", ExternalKind::Exam, "E1", "2026-03-01", &mut Trace::new()).unwrap();
    let refs: i64 = connection.query_row("SELECT count(*) FROM academic_external_refs WHERE unavailable_since IS NULL", [], |r| r.get(0)).unwrap();
    assert_eq!(refs, 2);
    storage.set_provider_connection("uninter", ProviderConnection::Connected, &mut Trace::new()).unwrap();
    let state: String = connection.query_row("SELECT connection FROM academic_provider_state", [], |r| r.get(0)).unwrap();
    assert_eq!(state, "connected");
    connection.execute("INSERT INTO academic_material_urls VALUES ('uninter', 'M1', 'https://x')", []).unwrap();
    assert_eq!(storage.material_url("uninter", "M1", &mut Trace::new()).unwrap(), Some("https://x".to_string()));
    assert_eq!(storage.material_url("uninter", "M2", &mut Trace::new()).unwrap(), None);
    storage.forget_provider("uninter", &mut Trace::new()).unwrap();
    let left: i64 = connection.query_row("SELECT count(*) FROM academic_external_refs", [], |r| r.get(0)).unwrap();
    assert_eq!(left, 0);
    let exams: i64 = connection.query_row("SELECT count(*) FROM academic_exams", [], |r| r.get(0)).unwrap();
    assert_eq!(exams, 1, "disconnecting keeps the academic entities");
}

fn count(connection: &Connection, table: &str) -> i64 {
    connection
        .query_row(&format!("SELECT count(*) FROM {table}"), [], |row| row.get(0))
        .unwrap()
}

fn matches(connection: &Connection, table: &str, query: &str) -> i64 {
    connection
        .query_row(&format!("SELECT count(*) FROM {table} WHERE {table} MATCH ?1"), [query], |row| row.get(0))
        .unwrap()
}

const MEETING: &str = "
INSERT INTO meetings VALUES ('m1', 'NexoDoc', '/audio/m1');
INSERT INTO meeting_analyses (meeting_id, summary) VALUES ('m1', 'resumo da conversa');
INSERT INTO meeting_insights (id, meeting_id, seq, text) VALUES ('i1', 'm1', 0, 'enviar slides');
INSERT INTO meeting_segments (id, meeting_id, seq, text, start_ms) VALUES ('s2', 'm1', 2, 'segundo trecho', 5000), ('s1', 'm1', 1, 'primeiro trecho com slides', 1000);
";

#[test]
fn o_indice_e_reconstruivel() {
    let dir = tempfile::tempdir().unwrap();
    let storage = open(dir.path());
    let connection = storage.connection();
    connection.execute_batch(MEETING).unwrap();
    assert_eq!(storage.rebuild_meeting_search(&mut Trace::new()).unwrap(), 1);
    assert_eq!(matches(connection, "meeting_search", "NexoDoc"), 1);
    assert_eq!(matches(connection, "meeting_search", "resumo"), 1);
    assert_eq!(matches(connection, "meeting_search", "slides"), 1);
    assert_eq!(matches(connection, "meeting_transcript_search", "slides"), 1);
    assert_eq!(count(connection, "meeting_transcript_index"), 2);
    let first: String = connection
        .query_row("SELECT segment_id FROM meeting_transcript_index ORDER BY rowid LIMIT 1", [], |row| row.get(0))
        .unwrap();
    assert_eq!(first, "s1", "segments are indexed in their order");
    assert_eq!(storage.rebuild_meeting_search(&mut Trace::new()).unwrap(), 1, "rebuilding twice leaves one entry");
    assert_eq!(count(connection, "meeting_search_index"), 1);
    assert_eq!(count(connection, "meeting_transcript_index"), 2);
}

#[test]
fn indexing_a_meeting_replaces_its_entry() {
    let dir = tempfile::tempdir().unwrap();
    let storage = open(dir.path());
    let connection = storage.connection();
    connection.execute_batch(MEETING).unwrap();
    index_meeting(connection, "m1", &mut Trace::new()).unwrap();
    connection.execute("UPDATE meetings SET title = 'Outro nome' WHERE id = 'm1'", []).unwrap();
    index_meeting(connection, "m1", &mut Trace::new()).unwrap();
    assert_eq!(count(connection, "meeting_search_index"), 1);
    assert_eq!(matches(connection, "meeting_search", "NexoDoc"), 0);
    assert_eq!(matches(connection, "meeting_search", "Outro"), 1);
    assert!(index_meeting(connection, "nope", &mut Trace::new()).is_err(), "a meeting that is not there has no title");
}

#[test]
fn apagar_a_reuniao_nao_deixa_orfao_em_lugar_nenhum() {
    let dir = tempfile::tempdir().unwrap();
    let storage = open(dir.path());
    let connection = storage.connection();
    connection.execute_batch(MEETING).unwrap();
    storage.rebuild_meeting_search(&mut Trace::new()).unwrap();
    storage
        .replace_analysis(&analysis("resumo"), &vec![insight("n1", "Terminar os slides", cite("s1"))], &mut Trace::new())
        .unwrap();
    assert_eq!(matches(connection, "meeting_search", "NexoDoc"), 1);
    assert_eq!(matches(connection, "meeting_transcript_search", "slides"), 1);

    assert_eq!(storage.delete_meeting("m1", &mut Trace::new()).unwrap(), "/audio/m1");

    for tabela in [
        "meetings",
        "meeting_segments",
        "meeting_insights",
        "meeting_analyses",
        "meeting_search_index",
        "meeting_transcript_index",
        "meeting_search",
        "meeting_transcript_search",
        "meeting_evidence",
    ] {
        assert_eq!(count(connection, tabela), 0, "{tabela}");
    }
}

#[test]
fn apagar_reuniao_inexistente_devolve_not_found() {
    let dir = tempfile::tempdir().unwrap();
    let storage = open(dir.path());
    let error = storage.delete_meeting("nope", &mut Trace::new()).unwrap_err();
    assert_eq!(error.code, ErrorCode::NotFound);
    assert_eq!(error.message, "Esta reuniao nao existe mais.");
    assert!(!error.retryable);
}

#[test]
fn the_audio_directory_comes_from_the_lookup() {
    assert_eq!(audio_directory_of(Some("/a".to_string())).unwrap(), "/a");
    assert_eq!(audio_directory_of(None).unwrap_err().code, ErrorCode::NotFound);
}

#[test]
fn bookmarks_and_guardian_events() {
    let dir = tempfile::tempdir().unwrap();
    let storage = open(dir.path());
    let connection = storage.connection();
    connection
        .execute_batch(
            "INSERT INTO meeting_bookmarks (id, meeting_id) VALUES ('b1', 'm1'), ('b2', 'm1');
             INSERT INTO meeting_guardian_events VALUES ('e1', 'suggested'), ('e2', 'ignored'), ('e3', 'suggested');",
        )
        .unwrap();
    storage.delete_meeting_bookmark("b1", &mut Trace::new()).unwrap();
    storage.delete_meeting_bookmark("b1", &mut Trace::new()).unwrap();
    assert_eq!(count(connection, "meeting_bookmarks"), 1);
    assert_eq!(
        storage.guardian_event_counts(&mut Trace::new()).unwrap(),
        vec![("ignored".to_string(), 1), ("suggested".to_string(), 2)]
    );
}

fn insight(id: &str, text: &str, evidence: Vec<EvidenceRecord>) -> InsightRecord {
    InsightRecord {
        id: id.to_string(),
        kind: "action".to_string(),
        text: text.to_string(),
        owner: Some("Ana".to_string()),
        due_hint: None,
        confidence: "high".to_string(),
        status: "proposed".to_string(),
        origin: "spoken".to_string(),
        due_at: None,
        due_confidence: None,
        evidence,
    }
}

fn analysis(summary: &str) -> AnalysisRecord {
    AnalysisRecord {
        meeting_id: "m1".to_string(),
        summary: summary.to_string(),
        model: "local".to_string(),
        produced_at: "2026-01-01T10:00:00Z".to_string(),
        windows: 2,
    }
}

fn cite(segment: &str) -> Vec<EvidenceRecord> {
    vec![EvidenceRecord { segment_id: segment.to_string(), seq: 0, char_start: None, char_end: None }]
}

#[test]
fn reanalysis_keeps_accepted_items_and_numbers_after_them() {
    let dir = tempfile::tempdir().unwrap();
    let storage = open(dir.path());
    let connection = storage.connection();
    connection.execute_batch(MEETING).unwrap();
    connection
        .execute("UPDATE meeting_insights SET status = 'accepted', seq = 3 WHERE id = 'i1'", [])
        .unwrap();
    let written = storage
        .replace_analysis(&analysis("primeira"), &vec![insight("n1", "revisar prancha", cite("s1")), insight("n2", "ligar", vec![])], &mut Trace::new())
        .unwrap();
    assert_eq!(written, 2);
    let seqs: Vec<(String, i64)> = connection
        .prepare("SELECT id, seq FROM meeting_insights ORDER BY seq")
        .unwrap()
        .query_map([], |row| Ok((row.get(0)?, row.get(1)?)))
        .unwrap()
        .map(|row| row.unwrap())
        .collect();
    assert_eq!(seqs, vec![("i1".to_string(), 3), ("n1".to_string(), 4), ("n2".to_string(), 5)]);
    assert_eq!(count(connection, "meeting_evidence"), 1);
    assert_eq!(matches(connection, "meeting_search", "prancha"), 1);

    // A second analysis replaces the spoken items that were not accepted.
    storage.replace_analysis(&analysis("segunda"), &vec![insight("n3", "outro", vec![])], &mut Trace::new()).unwrap();
    assert_eq!(count(connection, "meeting_insights"), 2);
    assert_eq!(count(connection, "meeting_analyses"), 1);
    let summary: String = connection.query_row("SELECT summary FROM meeting_analyses", [], |row| row.get(0)).unwrap();
    assert_eq!(summary, "segunda");
    let seq: i64 = connection.query_row("SELECT seq FROM meeting_insights WHERE id = 'n3'", [], |row| row.get(0)).unwrap();
    assert_eq!(seq, 4);
}

#[test]
fn evidence_citing_a_missing_segment_is_refused_whole() {
    let dir = tempfile::tempdir().unwrap();
    let storage = open(dir.path());
    let connection = storage.connection();
    connection.execute_batch(MEETING).unwrap();
    let error = storage
        .replace_analysis(&analysis("x"), &vec![insight("n1", "citacao falsa", cite("nao-existe"))], &mut Trace::new())
        .unwrap_err();
    assert_eq!(error.code, ErrorCode::DataIntegrity);
    assert_eq!(error.message, "A analise citou um trecho que nao existe nesta transcricao.");
    let summary: String = connection.query_row("SELECT summary FROM meeting_analyses", [], |row| row.get(0)).unwrap();
    assert_eq!(summary, "resumo da conversa", "nothing of the refused analysis stays");
}

#[test]
fn insight_numbers_and_evidence_errors() {
    assert_eq!(insight_seq(-1, 0), Some(0));
    assert_eq!(insight_seq(3, 2), Some(6));
    assert_eq!(insight_seq(i64::MAX, 0), None);
    assert_eq!(insight_seq(i64::MAX - 2, 1), Some(i64::MAX));
    let storage_error = || CoreError::new(ErrorCode::StorageUnavailable, "falha", false);
    assert_eq!(evidence_error(true, storage_error()).code, ErrorCode::DataIntegrity);
    assert_eq!(evidence_error(false, storage_error()).message, "falha");
}

#[test]
fn segments_outside_the_window_are_removed_with_their_index() {
    let dir = tempfile::tempdir().unwrap();
    let storage = open(dir.path());
    let connection = storage.connection();
    connection.execute_batch(MEETING).unwrap();
    storage.rebuild_meeting_search(&mut Trace::new()).unwrap();
    assert_eq!(storage.remove_segments_outside("m1", 0, 5000, &mut Trace::new()).unwrap(), 1);
    assert_eq!(count(connection, "meeting_segments"), 1);
    assert_eq!(count(connection, "meeting_transcript_index"), 1);
    assert_eq!(matches(connection, "meeting_transcript_search", "segundo"), 0);
    assert_eq!(matches(connection, "meeting_transcript_search", "primeiro"), 1);
    assert_eq!(storage.remove_segments_outside("m1", 0, 5000, &mut Trace::new()).unwrap(), 0);
}

#[test]
fn an_item_due_date_is_set_and_cleared() {
    let dir = tempfile::tempdir().unwrap();
    let storage = open(dir.path());
    let connection = storage.connection();
    connection.execute_batch(MEETING).unwrap();
    storage.set_insight_due("i1", Some("2026-02-01T00:00:00Z".to_string()), Some("low".to_string()), &mut Trace::new()).unwrap();
    let due: (Option<String>, Option<String>) = connection
        .query_row("SELECT due_at, due_confidence FROM meeting_insights WHERE id = 'i1'", [], |row| Ok((row.get(0)?, row.get(1)?)))
        .unwrap();
    assert_eq!(due, (Some("2026-02-01T00:00:00Z".to_string()), Some("low".to_string())));
    storage.set_insight_due("i1", None, None, &mut Trace::new()).unwrap();
    let due: Option<String> = connection.query_row("SELECT due_at FROM meeting_insights WHERE id = 'i1'", [], |row| row.get(0)).unwrap();
    assert_eq!(due, None);
}

const CONVERSATION: &str = "
INSERT INTO conversations VALUES ('c1', 'Plano', '2026-01-01T00:00:00Z');
INSERT INTO messages VALUES ('a', 'c1', 1, 'complete'), ('b', 'c1', 2, 'streaming'), ('c', 'c1', 3, 'pending');
INSERT INTO message_parts VALUES ('pa', 'a', 0, 'ola'), ('pb', 'b', 0, 'resposta
com duas linhas'), ('pc', 'c', 0, '');
";

#[test]
fn truncating_drops_the_message_and_every_later_one() {
    let dir = tempfile::tempdir().unwrap();
    let storage = open(dir.path());
    let connection = storage.connection();
    connection.execute_batch(CONVERSATION).unwrap();
    assert_eq!(message_count(connection, "c1", &mut Trace::new()).unwrap(), 3);
    assert_eq!(last_text(connection, "c1", &mut Trace::new()).unwrap(), Some("resposta\ncom duas linhas".to_string()));
    storage.truncate_from("b", &mut Trace::new()).unwrap();
    assert_eq!(message_count(connection, "c1", &mut Trace::new()).unwrap(), 1);
    assert_eq!(last_text(connection, "c1", &mut Trace::new()).unwrap(), Some("ola".to_string()));
    let touched: String = connection.query_row("SELECT updated_at FROM conversations", [], |row| row.get(0)).unwrap();
    assert_ne!(touched, "2026-01-01T00:00:00Z");
    assert_eq!(storage.truncate_from("b", &mut Trace::new()).unwrap_err().code, ErrorCode::NotFound);
}

#[test]
fn unfinished_messages_are_settled_and_conversations_deleted() {
    let dir = tempfile::tempdir().unwrap();
    let storage = open(dir.path());
    let connection = storage.connection();
    connection.execute_batch(CONVERSATION).unwrap();
    assert_eq!(storage.settle_unfinished_messages(&mut Trace::new()).unwrap(), 2);
    assert_eq!(storage.settle_unfinished_messages(&mut Trace::new()).unwrap(), 0);
    storage.delete_conversation("c1", &mut Trace::new()).unwrap();
    assert_eq!(count(connection, "messages"), 0);
    assert_eq!(count(connection, "message_parts"), 0);
    let error = storage.delete_conversation("c1", &mut Trace::new()).unwrap_err();
    assert_eq!(error.code, ErrorCode::NotFound);
    assert_eq!(error.message, "Conversa nao encontrada.");
}

#[test]
fn a_message_position_comes_from_its_lookup() {
    assert_eq!(message_position(Some(("c1".to_string(), 2))).unwrap(), ("c1".to_string(), 2));
    let error = message_position(None).unwrap_err();
    assert_eq!(error.code, ErrorCode::NotFound);
    assert_eq!(error.message, "Mensagem nao encontrada.");
}

#[test]
fn a_provider_without_state_reads_as_disconnected() {
    let dir = tempfile::tempdir().unwrap();
    let storage = open(dir.path());
    let status = storage.provider_status("uninter", &mut Trace::new()).unwrap();
    assert_eq!(status.provider, "uninter");
    assert_eq!(status.connection, ProviderConnection::Disconnected);
    assert_eq!(status.course_name, "");
    assert_eq!(status.last_sync_at, None);
    assert_eq!(status.last_outcome, None);
    assert!(status.live_references.is_empty());
}

#[test]
fn a_provider_status_counts_only_live_references() {
    let dir = tempfile::tempdir().unwrap();
    let storage = open(dir.path());
    let connection = storage.connection();
    gravar_ref(connection, "uninter", ExternalKind::Subject, "S1", "sub-1", "h", "2026-01-01", &mut Trace::new()).unwrap();
    gravar_ref(connection, "uninter", ExternalKind::Subject, "S2", "sub-2", "h", "2026-01-01", &mut Trace::new()).unwrap();
    gravar_ref(connection, "uninter", ExternalKind::Exam, "E1", "exam-1", "h", "2026-01-01", &mut Trace::new()).unwrap();
    let missing = vec![Missing { kind: ExternalKind::Subject, external_id: "S2".into() }];
    marcar_ausente(connection, "uninter", &missing, "2026-02-01", &mut Trace::new()).unwrap();
    connection
        .execute_batch(
            "INSERT INTO academic_provider_state VALUES ('uninter', 'expired', 'Engenharia', '2026-02-01T10:00:00Z', 'completed_with_warnings', 'x', 'x');",
        )
        .unwrap();
    let status = storage.provider_status("uninter", &mut Trace::new()).unwrap();
    assert_eq!(status.connection, ProviderConnection::Expired);
    assert_eq!(status.course_name, "Engenharia");
    assert_eq!(status.last_sync_at.as_deref(), Some("2026-02-01T10:00:00Z"));
    assert_eq!(status.last_outcome, Some(SyncOutcome::CompletedWithWarnings));
    assert_eq!(status.live_references, vec![("exam".to_string(), 1), ("subject".to_string(), 1)]);
}

#[test]
fn unknown_stored_words_read_as_disconnected_and_no_outcome() {
    let row = ProviderStateRow {
        connection: "weird".to_string(),
        course_name: "C".to_string(),
        last_sync_at: None,
        last_outcome: Some("exploded".to_string()),
    };
    let status = status_from_rows("p", Some(row), vec![("exam".to_string(), -3)]);
    assert_eq!(status.connection, ProviderConnection::Disconnected);
    assert_eq!(status.last_outcome, None);
    assert_eq!(status.live_references, vec![("exam".to_string(), 0)]);
}

#[test]
fn quiet_hours_start_on_and_survive_a_save() {
    let dir = tempfile::tempdir().unwrap();
    let storage = open(dir.path());
    let padrao = storage.attention_settings(&mut Trace::new()).unwrap();
    assert!(padrao.quiet.enabled, "o silencio vem ligado");
    assert!(!padrao.quiet.allow_urgent, "e furar o silencio e opt-in");
    assert!(padrao.os_channel_enabled, "o canal do sistema vem ligado");

    let mudado = AttentionSettings {
        quiet: QuietHours { enabled: true, start_minute: 23 * 60, end_minute: 7 * 60, allow_urgent: true },
        os_channel_enabled: false,
        local_offset_minutes: -180,
    };
    assert_eq!(storage.save_attention_settings(mudado, &mut Trace::new()).unwrap(), mudado);
    assert_eq!(storage.attention_settings(&mut Trace::new()).unwrap(), mudado);
}

#[test]
fn stored_settings_out_of_range_are_clamped() {
    let read = settings_from_row(&vec![7, -5, 5000, 0, 2, -2000]);
    assert_eq!(
        read,
        AttentionSettings {
            quiet: QuietHours { enabled: true, start_minute: 0, end_minute: 1439, allow_urgent: false },
            os_channel_enabled: true,
            local_offset_minutes: -840,
        }
    );
    assert_eq!(settings_row(read), vec![1, 0, 1439, 0, 1, -840]);
    assert_eq!(settings_from_row(&settings_row(read)), read);
}

#[test]
fn arquivo_no_lixo_nao_conta_como_duplicata() {
    let dir = tempfile::tempdir().unwrap();
    let storage = open(dir.path());
    let connection = storage.connection();
    connection
        .execute_batch(
            "INSERT INTO resources (id, lifecycle_state) VALUES ('r-old', 'trashed'), ('r-new', 'archived');
             INSERT INTO ingestions (id, state, sha256, resource_id, created_at) VALUES
                 ('g1', 'completed', 'abc', 'r-old', '2026-01-01'),
                 ('g2', 'completed', 'abc', 'r-new', '2026-01-02'),
                 ('g3', 'preserved', 'abc', NULL, '2026-01-03');",
        )
        .unwrap();
    assert_eq!(storage.duplicate_of("abc", "g3", &mut Trace::new()).unwrap(), Some("r-new".to_string()));
    assert_eq!(storage.duplicate_of("abc", "g2", &mut Trace::new()).unwrap(), None);
    assert_eq!(storage.duplicate_of("", "g3", &mut Trace::new()).unwrap(), None);
    assert_eq!(storage.duplicate_of("zzz", "g3", &mut Trace::new()).unwrap(), None);
}

#[test]
fn material_counts_skip_materials_out_of_use() {
    let dir = tempfile::tempdir().unwrap();
    let storage = open(dir.path());
    let connection = storage.connection();
    connection
        .execute_batch(
            "INSERT INTO resources (id, lifecycle_state) VALUES ('r1', 'active'), ('r2', 'active'), ('r3', 'trashed');
             INSERT INTO academic_subject_resources VALUES ('s1', 'r1'), ('s1', 'r2'), ('s2', 'r3');",
        )
        .unwrap();
    assert_eq!(storage.material_counts(&mut Trace::new()).unwrap(), vec![("s1".to_string(), 2)]);
}

#[test]
fn bookmarks_come_back_in_order_of_moment() {
    let dir = tempfile::tempdir().unwrap();
    let storage = open(dir.path());
    let mark = |id: &str, at_ms: i64| BookmarkRecord {
        id: id.to_string(),
        meeting_id: "m1".to_string(),
        at_ms,
        note: format!("nota {id}"),
        created_at: "2026-01-01T10:00:00Z".to_string(),
    };
    storage.add_meeting_bookmark(&mark("late", 9000), &mut Trace::new()).unwrap();
    storage.add_meeting_bookmark(&mark("early", -50), &mut Trace::new()).unwrap();
    let found = storage.meeting_bookmarks("m1", &mut Trace::new()).unwrap();
    assert_eq!(found.len(), 2);
    assert_eq!(found[0].id, "early");
    assert_eq!(found[0].at_ms, 0, "a moment before the start is the start");
    assert_eq!(found[0].note, "nota early");
    assert_eq!(found[1].at_ms, 9000);
    assert!(storage.meeting_bookmarks("m2", &mut Trace::new()).unwrap().is_empty());
}

#[test]
fn the_app_index_follows_the_registry() {
    let dir = tempfile::tempdir().unwrap();
    let storage = open(dir.path());
    let connection = storage.connection();
    connection
        .execute("INSERT INTO apps (id, name, description, launch_target) VALUES ('a1', 'Figma', 'design', 'https://figma.com')", [])
        .unwrap();
    let rowid = connection.last_insert_rowid();
    insert_app_search(connection, rowid, &mut Trace::new()).unwrap();
    assert_eq!(matches(connection, "app_search", "Figma"), 1);
    delete_app_search(connection, "a1", &mut Trace::new()).unwrap();
    assert_eq!(matches(connection, "app_search", "Figma"), 0);
    assert_eq!(storage.rebuild_app_search(&mut Trace::new()).unwrap(), 1);
    assert_eq!(matches(connection, "app_search", "design"), 1);
    assert!(ensure_app_changed(1).is_ok());
    let error = ensure_app_changed(0).unwrap_err();
    assert_eq!(error.code, ErrorCode::NotFound);
    assert_eq!(error.message, "App nao encontrado.");
}

#[test]
fn an_ingestion_marks_its_capture_processed() {
    let dir = tempfile::tempdir().unwrap();
    let storage = open(dir.path());
    let connection = storage.connection();
    connection
        .execute_batch(
            "INSERT INTO captures (id) VALUES ('c1');
             INSERT INTO ingestions (id, state, capture_id) VALUES ('g1', 'preserved', 'c1');
             INSERT INTO resource_workspaces VALUES ('r1', 'w1');",
        )
        .unwrap();
    mark_capture_processed(connection, "g1", "2026-01-01T00:00:00Z", &mut Trace::new()).unwrap();
    let state: (String, String) = connection
        .query_row("SELECT processing_state, updated_at FROM captures WHERE id = 'c1'", [], |row| Ok((row.get(0)?, row.get(1)?)))
        .unwrap();
    assert_eq!(state, ("processed".to_string(), "2026-01-01T00:00:00Z".to_string()));
    assert!(has_workspace_link(connection, "r1", "w1", &mut Trace::new()).unwrap());
    assert!(!has_workspace_link(connection, "r1", "w2", &mut Trace::new()).unwrap());
}

#[test]
fn references_are_read_back_under_their_provider_and_kind() {
    let dir = tempfile::tempdir().unwrap();
    let storage = open(dir.path());
    let connection = storage.connection();
    gravar_ref(connection, "uninter", ExternalKind::Exam, "E1", "exam-1", "h1", "2026-01-01", &mut Trace::new()).unwrap();
    gravar_ref(connection, "uninter", ExternalKind::Subject, "S1", "sub-1", "h2", "2026-01-01", &mut Trace::new()).unwrap();
    gravar_ref(connection, "outro", ExternalKind::Exam, "E9", "exam-9", "h3", "2026-01-01", &mut Trace::new()).unwrap();
    let missing = vec![Missing { kind: ExternalKind::Exam, external_id: "E1".into() }];
    marcar_ausente(connection, "uninter", &missing, "2026-02-01", &mut Trace::new()).unwrap();
    let refs = ler_refs(connection, "uninter", ExternalKind::Exam, &mut Trace::new()).unwrap();
    assert_eq!(refs.len(), 1);
    assert_eq!(refs[0].provider, "uninter");
    assert_eq!(refs[0].kind, ExternalKind::Exam);
    assert_eq!(refs[0].external_id, "E1");
    assert_eq!(refs[0].local_id, "exam-1");
    assert_eq!(refs[0].payload_hash, "h1");
    assert_eq!(refs[0].unavailable_since.as_deref(), Some("2026-02-01"));
    assert_eq!(refs[0].first_synced_at, "2026-01-01");
    assert_eq!(refs[0].last_synced_at, "2026-02-01");
    assert!(ler_refs(connection, "uninter", ExternalKind::Material, &mut Trace::new()).unwrap().is_empty());
}

fn conversation_with(messages: &[(&str, i64, &str, &str)]) -> String {
    let mut script = String::from("INSERT INTO conversations VALUES ('c1', '', '2026-01-01T00:00:00Z');");
    for (id, seq, status, text) in messages {
        script.push_str(&format!(
            "INSERT INTO messages VALUES ('{id}', 'c1', {seq}, '{status}'); INSERT INTO message_parts VALUES ('p{id}', '{id}', 0, '{text}');"
        ));
    }
    script
}

#[test]
fn truncating_removes_the_message_and_everything_after_it() {
    let dir = tempfile::tempdir().unwrap();
    let storage = open(dir.path());
    let connection = storage.connection();
    connection
        .execute_batch(&conversation_with(&[
            ("m1", 1, "complete", "primeira"),
            ("m2", 2, "complete", "segunda"),
            ("m3", 3, "complete", "terceira"),
        ]))
        .unwrap();
    storage.truncate_from("m2", &mut Trace::new()).unwrap();
    let remaining: Vec<String> = connection
        .prepare("SELECT p.search_text FROM messages m JOIN message_parts p ON p.message_id = m.id ORDER BY m.seq")
        .unwrap()
        .query_map([], |row| row.get(0))
        .unwrap()
        .map(|row| row.unwrap())
        .collect();
    assert_eq!(remaining.len(), 1);
    assert_eq!(remaining[0], "primeira");
}

#[test]
fn an_unfinished_message_is_settled_on_reopen() {
    let dir = tempfile::tempdir().unwrap();
    let storage = open(dir.path());
    let connection = storage.connection();
    connection.execute_batch(&conversation_with(&[("m1", 1, "pending", "")])).unwrap();
    assert_eq!(storage.settle_unfinished_messages(&mut Trace::new()).unwrap(), 1);
    let status: String = connection.query_row("SELECT status FROM messages", [], |row| row.get(0)).unwrap();
    assert_eq!(status, "interrupted");
    assert_eq!(storage.settle_unfinished_messages(&mut Trace::new()).unwrap(), 0);
}

#[test]
fn deleting_a_conversation_takes_its_messages_and_parts() {
    let dir = tempfile::tempdir().unwrap();
    let storage = open(dir.path());
    let connection = storage.connection();
    connection.execute_batch(&conversation_with(&[("m1", 1, "complete", "some junto")])).unwrap();
    storage.delete_conversation("c1", &mut Trace::new()).unwrap();
    assert_eq!(count(connection, "conversations"), 0);
    assert_eq!(count(connection, "messages"), 0);
    assert_eq!(count(connection, "message_parts"), 0);
}

#[test]
fn opens_with_required_pragmas_and_schema() {
    let dir = tempfile::tempdir().unwrap();
    let storage = open(dir.path());
    let health = storage.health(&mut Trace::new()).unwrap();
    assert_eq!(health.journal_mode.to_lowercase(), "wal");
    assert_eq!(health.synchronous, "FULL");
    assert_eq!(health.schema_version, SCHEMA_VERSION);
    assert_eq!(health.integrity, "ok");
}

#[test]
fn orfa_pre_existente_nao_impede_o_app_de_abrir() {
    let dir = tempfile::tempdir().unwrap();
    let database = dir.path().join("mos.db");
    let backups = dir.path().to_str().unwrap().to_string();
    let connection = Connection::open(&database).unwrap();
    configure_connection(&connection, &mut Trace::new()).unwrap();
    migrate(&connection, &backups, &migrations(), &mut Trace::new()).unwrap();
    connection
        .execute_batch(
            "PRAGMA foreign_keys = OFF;
             INSERT INTO projects (id) VALUES ('p-sumiu');
             INSERT INTO tasks (id, project_id) VALUES ('t-orfa', 'p-sumiu');
             DELETE FROM projects;
             PRAGMA foreign_keys = ON;",
        )
        .unwrap();
    let antes = contagem_de_orfas(&connection, &mut Trace::new()).unwrap();
    assert!(!antes.is_empty(), "o teste precisa de sujeira pre-existente");
    connection.execute_batch("PRAGMA user_version = 29;").unwrap();
    migrate(&connection, &backups, &migrations(), &mut Trace::new()).expect("sujeira antiga nao tranca a porta");
    assert_eq!(contagem_de_orfas(&connection, &mut Trace::new()).unwrap(), antes, "e ela continua la");
}

#[test]
fn orfa_criada_pela_migration_continua_recusada() {
    let dir = tempfile::tempdir().unwrap();
    let database = dir.path().join("mos.db");
    let backups = dir.path().to_str().unwrap().to_string();
    let connection = Connection::open(&database).unwrap();
    configure_connection(&connection, &mut Trace::new()).unwrap();
    migrate(&connection, &backups, &migrations(), &mut Trace::new()).unwrap();
    let antes = contagem_de_orfas(&connection, &mut Trace::new()).unwrap();
    assert!(antes.is_empty(), "o banco novo nasce limpo");
    connection
        .execute_batch(
            "PRAGMA foreign_keys = OFF;
             INSERT INTO tasks (id, project_id) VALUES ('t77', 'nao-existe');
             PRAGMA foreign_keys = ON;",
        )
        .unwrap();
    let erro = verify_foreign_keys(&connection, &antes, &mut Trace::new()).unwrap_err();
    assert_eq!(erro.code, ErrorCode::DataIntegrity);
    assert!(erro.message.contains("tasks"), "a mensagem precisa nomear a tabela: {}", erro.message);
}

fn new_session(id: &str, day: &str) -> NewDailySession {
    NewDailySession {
        id: id.to_string(),
        day: day.to_string(),
        note: "foco".to_string(),
        started_at: format!("{day}T08:00:00Z"),
    }
}

fn new_objective(id: &str, session: &str, position: i64, carried_from: Option<&str>) -> NewDailyObjective {
    NewDailyObjective {
        id: id.to_string(),
        session_id: session.to_string(),
        title: format!("objetivo {id}"),
        description: String::new(),
        link_kind: None,
        link_id: None,
        priority: "secondary".to_string(),
        position,
        carried_from: carried_from.map(|c| c.to_string()),
        created_at: "2026-03-02T08:00:00Z".to_string(),
    }
}

#[test]
fn starting_a_day_closes_the_open_one_and_keeps_its_objectives_pending() {
    let dir = tempfile::tempdir().unwrap();
    let storage = open(dir.path());
    let ontem = storage
        .start_day(&new_session("s1", "2026-03-01"), &vec![new_objective("o1", "s1", 0, None)], "2026-03-01T08:00:00Z", &mut Trace::new())
        .unwrap();
    assert_eq!(ontem.status, SessionStatus::Active);
    assert_eq!(ontem.ended_at, None);

    let hoje = storage
        .start_day(
            &new_session("s2", "2026-03-02"),
            &vec![new_objective("o2", "s2", 0, Some("o1")), new_objective("o3", "s2", 1, None)],
            "2026-03-02T08:00:00Z",
            &mut Trace::new(),
        )
        .unwrap();
    assert_eq!(hoje.id, "s2");
    assert_eq!(hoje.day, "2026-03-02");
    assert_eq!(hoje.status, SessionStatus::Active);
    assert_eq!(hoje.created_at, "2026-03-02T08:00:00Z");

    let connection = storage.connection();
    let (status, ended): (String, Option<String>) = connection
        .query_row("SELECT status, ended_at FROM daily_sessions WHERE id = 's1'", [], |row| Ok((row.get(0)?, row.get(1)?)))
        .unwrap();
    assert_eq!(status, "completed");
    assert_eq!(ended.as_deref(), Some("2026-03-02T08:00:00Z"));
    let pendente: String = connection
        .query_row("SELECT status FROM daily_objectives WHERE id = 'o1'", [], |row| row.get(0))
        .unwrap();
    assert_eq!(pendente, "pending");
    let novos: i64 = connection
        .query_row("SELECT count(*) FROM daily_objectives WHERE session_id = 's2' AND status = 'pending'", [], |row| row.get(0))
        .unwrap();
    assert_eq!(novos, 2);
    assert_eq!(storage.carry_depth("o2", &mut Trace::new()).unwrap(), 1);
}

#[test]
fn a_day_cannot_be_started_twice() {
    let dir = tempfile::tempdir().unwrap();
    let storage = open(dir.path());
    storage.start_day(&new_session("s1", "2026-03-01"), &vec![], "2026-03-01T08:00:00Z", &mut Trace::new()).unwrap();
    let mut trace = Trace::new();
    let error = storage
        .start_day(&new_session("s9", "2026-03-01"), &vec![new_objective("o9", "s9", 0, None)], "2026-03-01T09:00:00Z", &mut trace)
        .unwrap_err();
    assert_eq!(error.code, ErrorCode::InvalidInput);
    assert_eq!(error.message, "Este dia ja foi iniciado.");
    let sessions: i64 = storage.connection().query_row("SELECT count(*) FROM daily_sessions", [], |row| row.get(0)).unwrap();
    assert_eq!(sessions, 1);
    let objectives: i64 = storage.connection().query_row("SELECT count(*) FROM daily_objectives", [], |row| row.get(0)).unwrap();
    assert_eq!(objectives, 0);
}

#[test]
fn ending_a_day_settles_objectives_and_writes_the_reflection() {
    let dir = tempfile::tempdir().unwrap();
    let storage = open(dir.path());
    storage
        .start_day(
            &new_session("s1", "2026-03-01"),
            &vec![new_objective("o1", "s1", 0, None), new_objective("o2", "s1", 1, None)],
            "2026-03-01T08:00:00Z",
            &mut Trace::new(),
        )
        .unwrap();
    let reflection = Some(NewDailyReflection { mood: Some("good".to_string()), summary: "rendeu".to_string() });
    let ended = storage
        .end_day(
            "s1",
            &vec![("o1".to_string(), ObjectiveStatus::Completed), ("o2".to_string(), ObjectiveStatus::Dropped)],
            &reflection,
            "2026-03-01T18:00:00Z",
            &mut Trace::new(),
        )
        .unwrap();
    assert_eq!(ended.status, SessionStatus::Completed);
    assert_eq!(ended.ended_at.as_deref(), Some("2026-03-01T18:00:00Z"));
    assert_eq!(ended.day, "2026-03-01");
    let connection = storage.connection();
    let (status, completed): (String, Option<String>) = connection
        .query_row("SELECT status, completed_at FROM daily_objectives WHERE id = 'o1'", [], |row| Ok((row.get(0)?, row.get(1)?)))
        .unwrap();
    assert_eq!(status, "completed");
    assert_eq!(completed.as_deref(), Some("2026-03-01T18:00:00Z"));
    let (status, completed): (String, Option<String>) = connection
        .query_row("SELECT status, completed_at FROM daily_objectives WHERE id = 'o2'", [], |row| Ok((row.get(0)?, row.get(1)?)))
        .unwrap();
    assert_eq!(status, "dropped");
    assert_eq!(completed, None);
    let (mood, summary): (Option<String>, String) = connection
        .query_row("SELECT mood, summary FROM daily_reflections WHERE session_id = 's1'", [], |row| Ok((row.get(0)?, row.get(1)?)))
        .unwrap();
    assert_eq!(mood.as_deref(), Some("good"));
    assert_eq!(summary, "rendeu");
}

#[test]
fn ending_a_day_with_a_foreign_objective_changes_nothing() {
    let dir = tempfile::tempdir().unwrap();
    let storage = open(dir.path());
    storage
        .start_day(&new_session("s1", "2026-03-01"), &vec![new_objective("o1", "s1", 0, None)], "2026-03-01T08:00:00Z", &mut Trace::new())
        .unwrap();
    let error = storage
        .end_day(
            "s1",
            &vec![("o1".to_string(), ObjectiveStatus::Completed), ("de-outro-dia".to_string(), ObjectiveStatus::Completed)],
            &None,
            "2026-03-01T18:00:00Z",
            &mut Trace::new(),
        )
        .unwrap_err();
    assert_eq!(error.code, ErrorCode::NotFound);
    let status: String = storage
        .connection()
        .query_row("SELECT status FROM daily_objectives WHERE id = 'o1'", [], |row| row.get(0))
        .unwrap();
    assert_eq!(status, "pending");
    let session: String = storage
        .connection()
        .query_row("SELECT status FROM daily_sessions WHERE id = 's1'", [], |row| row.get(0))
        .unwrap();
    assert_eq!(session, "active");
    let unknown = storage.end_day("nao-existe", &vec![], &None, "2026-03-01T18:00:00Z", &mut Trace::new()).unwrap_err();
    assert_eq!(unknown.code, ErrorCode::NotFound);
}

/// A meeting with its transcript and no items yet.
const TRANSCRIBED: &str = "
INSERT INTO meetings VALUES ('m1', 'NexoDoc', '/audio/m1');
INSERT INTO meeting_segments (id, meeting_id, seq, text, start_ms) VALUES ('s1', 'm1', 0, 'vamos revisar a prancha', 0), ('s2', 'm1', 1, 'e fechar o orcamento', 4000);
";

#[test]
fn evidencia_para_segmento_inexistente_e_recusada_pelo_banco() {
    let dir = tempfile::tempdir().unwrap();
    let storage = open(dir.path());
    let connection = storage.connection();
    connection.execute_batch(TRANSCRIBED).unwrap();
    let mut item = insight("a1", "Acao inventada", cite("segmento-que-nao-existe"));
    item.kind = "my_action".to_string();
    let error = storage
        .replace_analysis(&analysis("resumo"), &vec![item], &mut Trace::new())
        .unwrap_err();
    assert_eq!(error.code, ErrorCode::DataIntegrity);
    assert_eq!(count(connection, "meeting_insights"), 0, "nenhum item entrou pela metade");
}

#[test]
fn reanalisar_preserva_o_que_foi_aceito() {
    let dir = tempfile::tempdir().unwrap();
    let storage = open(dir.path());
    let connection = storage.connection();
    connection.execute_batch(TRANSCRIBED).unwrap();
    let mut aceito = insight("aceito", "Ja virou Task", cite("s1"));
    aceito.kind = "my_action".to_string();
    let mut descartavel = insight("descartavel", "So uma decisao", cite("s1"));
    descartavel.kind = "decision".to_string();
    storage
        .replace_analysis(&analysis("primeira"), &vec![aceito, descartavel], &mut Trace::new())
        .unwrap();
    connection
        .execute("UPDATE meeting_insights SET status = 'accepted' WHERE id = 'aceito'", [])
        .unwrap();

    let mut outra = insight("outra", "Outra leitura", vec![]);
    outra.kind = "decision".to_string();
    storage.replace_analysis(&analysis("segunda"), &vec![outra], &mut Trace::new()).unwrap();

    let status: String = connection
        .query_row("SELECT status FROM meeting_insights WHERE id = 'aceito'", [], |row| row.get(0))
        .expect("o item aceito precisa sobreviver a reanalise");
    assert_eq!(status, "accepted");
    assert_eq!(
        connection.query_row("SELECT count(*) FROM meeting_insights WHERE text = 'Outra leitura'", [], |row| row.get::<_, i64>(0)).unwrap(),
        1
    );
    assert_eq!(
        connection.query_row("SELECT count(*) FROM meeting_insights WHERE text = 'So uma decisao'", [], |row| row.get::<_, i64>(0)).unwrap(),
        0,
        "o item nao aceito e substituido"
    );
}

#[test]
fn upgrades_v1_after_creating_a_consistent_snapshot() {
    let dir = tempfile::tempdir().unwrap();
    let (database, backups) = database_at(dir.path(), 1);
    {
        let connection = Connection::open(&database).unwrap();
        connection
            .execute("INSERT INTO captures (id, content) VALUES ('0198a7d5-a64e-7000-8000-000000000001', 'Preservada')", [])
            .unwrap();
    }
    let from = now();
    let storage = SqliteStorage::open(&database, &backups, &migrations()).unwrap();
    let to = now();
    assert_eq!(storage.health(&mut Trace::new()).unwrap().schema_version, SCHEMA_VERSION);
    assert_eq!(storage.capture_count(&mut Trace::new()).unwrap(), 1);
    assert_eq!(snapshots(&backups, 1, from, to), 1);
    let copy = (from..=to)
        .map(|t| Path::new(&backups).join(format!("pre-migration-v1-{t}.db")))
        .find(|path| path.exists())
        .unwrap();
    let snapshot = Connection::open(&copy).unwrap();
    let integrity: String = snapshot.query_row("PRAGMA quick_check", [], |row| row.get(0)).unwrap();
    assert_eq!(integrity, "ok");
    let kept: i64 = snapshot.query_row("SELECT count(*) FROM captures", [], |row| row.get(0)).unwrap();
    assert_eq!(kept, 1);
}

#[test]
fn momentos_marcados_voltam_em_ordem() {
    let dir = tempfile::tempdir().unwrap();
    let storage = open(dir.path());
    let mark = |id: &str, at_ms: i64| BookmarkRecord {
        id: id.to_string(),
        meeting_id: "m1".to_string(),
        at_ms,
        note: String::new(),
        created_at: "2026-01-01T10:00:00Z".to_string(),
    };
    storage.add_meeting_bookmark(&mark("segundo", 90_000), &mut Trace::new()).unwrap();
    storage.add_meeting_bookmark(&mark("primeiro", 30_000), &mut Trace::new()).unwrap();
    let marcas = storage.meeting_bookmarks("m1", &mut Trace::new()).unwrap();
    assert_eq!(marcas.iter().map(|b| b.at_ms).collect::<Vec<_>>(), vec![30_000, 90_000]);
    storage.delete_meeting_bookmark("primeiro", &mut Trace::new()).unwrap();
    assert_eq!(storage.meeting_bookmarks("m1", &mut Trace::new()).unwrap().len(), 1);
}

#[test]
fn a_closed_day_reopens_only_when_no_other_is_open() {
    let dir = tempfile::tempdir().unwrap();
    let storage = open(dir.path());
    storage.start_day(&new_session("s1", "2026-03-01"), &vec![], "2026-03-01T08:00:00Z", &mut Trace::new()).unwrap();
    storage.start_day(&new_session("s2", "2026-03-02"), &vec![], "2026-03-02T08:00:00Z", &mut Trace::new()).unwrap();
    let refused = storage.reopen_day("s1", "2026-03-02T09:00:00Z", &mut Trace::new()).unwrap_err();
    assert_eq!(refused.code, ErrorCode::InvalidInput);
    assert_eq!(refused.message, "Ja existe um dia aberto. Encerre ele antes de reabrir outro.");
    assert_eq!(storage.session("s1", &mut Trace::new()).unwrap().status, SessionStatus::Completed);

    storage.end_day("s2", &vec![], &None, "2026-03-02T18:00:00Z", &mut Trace::new()).unwrap();
    let reopened = storage.reopen_day("s1", "2026-03-02T19:00:00Z", &mut Trace::new()).unwrap();
    assert_eq!(reopened.status, SessionStatus::Active);
    assert_eq!(reopened.ended_at, None);
    assert_eq!(reopened.updated_at, "2026-03-02T19:00:00Z");
    assert_eq!(storage.reopen_day("nao-existe", "2026-03-02T19:00:00Z", &mut Trace::new()).unwrap_err().code, ErrorCode::InvalidInput);
}

#[test]
fn a_removed_objective_is_gone_and_a_missing_one_is_not_found() {
    let dir = tempfile::tempdir().unwrap();
    let storage = open(dir.path());
    storage
        .start_day(&new_session("s1", "2026-03-01"), &vec![new_objective("o1", "s1", 0, None)], "2026-03-01T08:00:00Z", &mut Trace::new())
        .unwrap();
    storage.remove_objective("o1", &mut Trace::new()).unwrap();
    let left: i64 = storage.connection().query_row("SELECT count(*) FROM daily_objectives", [], |row| row.get(0)).unwrap();
    assert_eq!(left, 0);
    let missing = storage.remove_objective("o1", &mut Trace::new()).unwrap_err();
    assert_eq!(missing.code, ErrorCode::NotFound);
    assert_eq!(missing.message, "Objetivo do dia nao encontrado.");
    assert_eq!(storage.session("nao-existe", &mut Trace::new()).unwrap_err().code, ErrorCode::NotFound);
}

#[test]
fn an_ingestion_enters_and_leaves_the_search_index() {
    let dir = tempfile::tempdir().unwrap();
    let storage = open(dir.path());
    let connection = storage.connection();
    connection
        .execute("INSERT INTO ingestions (id, state, original_name, extracted_text) VALUES ('g1', 'completed', 'planta.pdf', 'corrimao da escada')", [])
        .unwrap();
    let rowid: i64 = connection.query_row("SELECT rowid FROM ingestions WHERE id = 'g1'", [], |row| row.get(0)).unwrap();
    insert_ingestion_search(connection, rowid, &mut Trace::new()).unwrap();
    assert_eq!(matches(connection, "ingestion_search", "corrimao"), 1);
    delete_ingestion_search(connection, "g1", &mut Trace::new()).unwrap();
    assert_eq!(matches(connection, "ingestion_search", "corrimao"), 0);
}

#[test]
fn the_message_index_is_rebuilt_in_one_transaction() {
    let dir = tempfile::tempdir().unwrap();
    let storage = open(dir.path());
    storage.connection().execute("INSERT INTO message_search (content) VALUES ('avulso')", []).unwrap();
    assert_eq!(storage.rebuild_conversation_search(&mut Trace::new()).unwrap(), 1);
}
