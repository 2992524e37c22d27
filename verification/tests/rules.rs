use mos_storage_sqlite::academic::{
    colunas_de, estado_str, lifecycle_filter, resultado_str, ProviderConnection, SyncOutcome,
    ASSIGNMENT_COLUMNS, EXAM_COLUMNS, SEMESTER_COLUMNS, STUDY_COLUMNS, SUBJECT_COLUMNS,
};
use mos_storage_sqlite::academic_provider::{kind_str, parse_connection, parse_outcome, tracked_count, ExternalKind};
use mos_storage_sqlite::backup::{
    backup_invalid, check_database_contents, check_database_file, check_manifest,
    daily_backups_to_prune, daily_snapshot_name, database_checksum, name_less, new_manifest,
    safety_snapshot_name, BackupManifest,
};
use mos_storage_sqlite::cronocad::{
    check_not_imported, map_status, project_description, tracked_seconds, ImportReport,
    LifecycleState, TrackingStatus,
};
use mos_storage_sqlite::device::device_id_for;
use mos_storage_sqlite::error::{map_io_error, map_lock_error, map_sql_failure, not_found, ErrorCode};
use mos_storage_sqlite::ingestion::{byte_size, check_state, ensure_changed, image_size, page_count, ImageSize};
use mos_storage_sqlite::schema::{
    describe_orphans, eq_ignore_ascii_case, integrity_ok, new_orphans, plan_migrations,
    pragmas_durable, projection_needs_rebuild, search_projections, synchronous_name,
    SCHEMA_VERSION,
};
use mos_storage_sqlite::sqlite::SqlFailure;
use mos_storage_sqlite::storage::{
    check_durability, check_integrity, check_migration_result, pre_migration_snapshot_name,
    StorageHealth,
};
use mos_storage_sqlite::text::{
    concatenate, decimal, is_blank, join, preview, same_text, signed_decimal, starts_with, trim_snippet,
    without_char, like_escape, like_pattern, trim,
};

// ---------------------------------------------------------------- text

#[test]
fn decimal_writes_numbers() {
    assert_eq!(decimal(0), "0");
    assert_eq!(decimal(7), "7");
    assert_eq!(decimal(30), "30");
    assert_eq!(decimal(u64::MAX), "18446744073709551615");
    assert_eq!(signed_decimal(-42), "-42");
    assert_eq!(signed_decimal(i64::MIN), "-9223372036854775808");
    assert_eq!(signed_decimal(1725029869), "1725029869");
}

#[test]
fn join_puts_the_separator_between_neighbours() {
    assert_eq!(join(&vec![], ", "), "");
    assert_eq!(join(&vec!["a".to_string()], ", "), "a");
    assert_eq!(join(&vec!["a".to_string(), "b".to_string(), "c".to_string()], ", "), "a, b, c");
}

#[test]
fn a_short_snippet_is_kept_whole() {
    let text = "Eu termino os slides amanha.";
    assert_eq!(trim_snippet(text), text);
    let exact: String = "x".repeat(160);
    assert_eq!(trim_snippet(&exact), exact);
}

#[test]
fn a_long_snippet_ends_at_a_word_past_the_middle() {
    let text = format!("{} {}", "a".repeat(100), "b".repeat(100));
    let snippet = trim_snippet(&text);
    assert_eq!(snippet, format!("{}…", "a".repeat(100)));
}

#[test]
fn a_long_snippet_without_a_late_space_is_cut_at_the_limit() {
    let text = format!("{} {}", "a".repeat(50), "b".repeat(200));
    let snippet = trim_snippet(&text);
    let expected: String = text.chars().take(160).collect();
    assert_eq!(snippet, format!("{expected}…"));
    let no_space = "z".repeat(300);
    assert_eq!(trim_snippet(&no_space), format!("{}…", "z".repeat(160)));
}

#[test]
fn the_snippet_counts_bytes_before_the_space() {
    // 45 two-byte characters are 90 bytes: the space sits past the middle in
    // bytes although it is the 46th character.
    let text = format!("{} {}", "é".repeat(45), "b".repeat(200));
    assert_eq!(trim_snippet(&text), format!("{}…", "é".repeat(45)));
}

#[test]
fn the_preview_is_the_first_line() {
    assert_eq!(preview(None), "");
    assert_eq!(preview(Some("primeira linha\nsegunda".to_string())), "primeira linha");
    assert_eq!(preview(Some("com retorno\r\nsegunda".to_string())), "com retorno");
    assert_eq!(preview(Some("\nsegunda".to_string())), "");
    assert_eq!(preview(Some("sem quebra".to_string())), "sem quebra");
    let long = "y".repeat(300);
    assert_eq!(preview(Some(long)).chars().count(), 140);
}

#[test]
fn blank_text_is_only_white_space() {
    assert!(is_blank(""));
    assert!(is_blank("  \t\n\u{00A0}\u{3000}"));
    assert!(!is_blank("  x "));
}

#[test]
fn small_text_helpers() {
    assert_eq!(without_char("2026-08-22", '-'), "20260822");
    assert!(starts_with("daily-20260822.mos-backup", "daily-"));
    assert!(!starts_with("safety-1.mos-backup", "daily-"));
    assert!(!starts_with("dai", "daily-"));
    assert!(same_text("ok", "ok"));
    assert!(!same_text("ok", "okay"));
    assert_eq!(concatenate("a", "b"), "ab");
}

// ---------------------------------------------------------------- schema

#[test]
fn synchronous_levels_have_names() {
    assert_eq!(synchronous_name(0), "OFF");
    assert_eq!(synchronous_name(1), "NORMAL");
    assert_eq!(synchronous_name(2), "FULL");
    assert_eq!(synchronous_name(3), "EXTRA");
    assert_eq!(synchronous_name(4), "UNKNOWN");
    assert_eq!(synchronous_name(-1), "UNKNOWN");
}

#[test]
fn durability_needs_wal_full_and_foreign_keys() {
    assert!(pragmas_durable("wal", 2, 1));
    assert!(pragmas_durable("WAL", 2, 1));
    assert!(!pragmas_durable("delete", 2, 1));
    assert!(!pragmas_durable("wal", 1, 1));
    assert!(!pragmas_durable("wal", 2, 0));
    assert!(eq_ignore_ascii_case("Wal", "wAL"));
    assert!(!eq_ignore_ascii_case("wall", "wal"));
    assert!(check_durability("wal", 2, 1).is_ok());
    let refused = check_durability("memory", 2, 1).unwrap_err();
    assert_eq!(refused.code, ErrorCode::StorageUnavailable);
    assert_eq!(
        refused.message,
        "O banco local nao abriu com as garantias de durabilidade exigidas."
    );
    assert!(!refused.retryable);
}

#[test]
fn integrity_answer_must_be_ok() {
    assert!(integrity_ok("ok"));
    assert!(!integrity_ok("row 3 missing from index"));
    assert!(check_integrity("ok").is_ok());
    let refused = check_integrity("row 3 missing from index").unwrap_err();
    assert_eq!(refused.code, ErrorCode::DataIntegrity);
    assert_eq!(
        refused.message,
        "O banco local falhou na verificacao de integridade: row 3 missing from index"
    );
}

#[test]
fn the_plan_runs_what_the_database_has_not_seen() {
    assert_eq!(SCHEMA_VERSION, 30);
    let fresh = plan_migrations(0).unwrap();
    assert!(!fresh.snapshot);
    assert_eq!(fresh.first, 1);
    let older = plan_migrations(16).unwrap();
    assert!(older.snapshot);
    assert_eq!(older.first, 17);
    let current = plan_migrations(30).unwrap();
    assert!(!current.snapshot);
    assert_eq!(current.first, 31);
    let newer = plan_migrations(31).unwrap_err();
    assert_eq!(newer.code, ErrorCode::StorageUnavailable);
    assert_eq!(newer.message, "O banco local foi criado por uma versao mais nova do M/OS.");
}

#[test]
fn a_migration_answers_only_for_the_orphans_it_left() {
    let before = vec![("meeting_transcript_index".to_string(), 48), ("meeting_search_index".to_string(), 2)];
    // Nothing new: the old orphans are not the migration's fault.
    assert!(new_orphans(&before, &before).is_empty());
    assert!(check_migration_result(1, &before, &before).is_ok());
    // One table cleaned while another gained: the gain is reported.
    let after = vec![("meeting_transcript_index".to_string(), 0), ("tasks".to_string(), 1)];
    assert_eq!(new_orphans(&before, &after), vec![("tasks".to_string(), 1)]);
    let refused = check_migration_result(1, &before, &after).unwrap_err();
    assert_eq!(refused.code, ErrorCode::DataIntegrity);
    assert_eq!(refused.message, "Esta migration deixou referencias orfas em: tasks (1 a mais).");
    // Foreign keys left off are refused first.
    let off = check_migration_result(0, &before, &before).unwrap_err();
    assert_eq!(off.message, "Uma migration deixou as foreign keys desligadas.");
}

#[test]
fn the_orphan_message_lists_every_table() {
    let found = vec![("a".to_string(), 3), ("b".to_string(), 10)];
    assert_eq!(
        describe_orphans(&found),
        "Esta migration deixou referencias orfas em: a (3 a mais), b (10 a mais)."
    );
}

#[test]
fn the_search_projections_and_their_rebuild() {
    let pairs = search_projections();
    assert_eq!(pairs.len(), 8);
    assert_eq!(pairs[0], ("captures", "capture_search"));
    assert_eq!(pairs[7], ("message_parts", "message_search"));
    assert!(projection_needs_rebuild(3, 2));
    assert!(!projection_needs_rebuild(3, 3));
}

#[test]
fn the_snapshot_name_records_version_and_time() {
    assert_eq!(pre_migration_snapshot_name(16, 1755600000), "pre-migration-v16-1755600000.db");
}

#[test]
fn health_names_the_durability_level() {
    let health = StorageHealth::from_pragmas("C:/mos.db".to_string(), 30, "wal".to_string(), 2, "ok".to_string());
    assert_eq!(health.synchronous, "FULL");
    assert_eq!(health.schema_version, 30);
    assert_eq!(health.database_path, "C:/mos.db");
}

// ---------------------------------------------------------------- errors

#[test]
fn sql_failures_become_storage_errors() {
    let busy = map_sql_failure(SqlFailure::Busy, "database is locked");
    assert_eq!(busy.code, ErrorCode::StorageBusy);
    assert!(busy.retryable);
    assert_eq!(busy.message, "O banco local esta ocupado. Nada foi salvo; tente novamente.");
    assert_eq!(map_sql_failure(SqlFailure::Locked, "").code, ErrorCode::StorageBusy);
    let full = map_sql_failure(SqlFailure::DiskFull, "");
    assert_eq!(full.code, ErrorCode::StorageUnavailable);
    assert!(!full.retryable);
    assert_eq!(full.message, "O disco esta sem espaco. Nada foi salvo.");
    let corrupt = map_sql_failure(SqlFailure::Corrupt, "");
    assert_eq!(corrupt.code, ErrorCode::DataIntegrity);
    assert_eq!(corrupt.message, "O banco local parece corrompido. Escritas foram bloqueadas.");
    let other = map_sql_failure(SqlFailure::Other, "no such table: x");
    assert_eq!(other.code, ErrorCode::StorageUnavailable);
    assert_eq!(other.message, "Falha no armazenamento local: no such table: x");
}

#[test]
fn io_and_lock_errors() {
    let io = map_io_error("permission denied");
    assert_eq!(io.code, ErrorCode::Io);
    assert_eq!(io.message, "Falha de arquivo local: permission denied");
    let lock = map_lock_error("poisoned");
    assert_eq!(lock.code, ErrorCode::StorageUnavailable);
    assert_eq!(lock.message, "Acesso ao banco local foi interrompido: poisoned");
    let missing = not_found("Semestre nao encontrado.");
    assert_eq!(missing.code, ErrorCode::NotFound);
    assert_eq!(missing.message, "Semestre nao encontrado.");
}

// ---------------------------------------------------------------- cronocad

#[test]
fn cronocad_status_maps_to_two_axes() {
    assert_eq!(map_status("completed"), (LifecycleState::Archived, TrackingStatus::Completed));
    assert_eq!(map_status("archived"), (LifecycleState::Archived, TrackingStatus::Archived));
    assert_eq!(map_status("paused"), (LifecycleState::Active, TrackingStatus::Paused));
    assert_eq!(map_status("active"), (LifecycleState::Active, TrackingStatus::Active));
    assert_eq!(map_status("whatever"), (LifecycleState::Active, TrackingStatus::Active));
}

#[test]
fn project_notes_survive_as_the_description_text() {
    assert_eq!(
        project_description(Some("Rancho Queimado".into()), Some("obra com corrimao".into())),
        "Rancho Queimado\n\nobra com corrimao"
    );
    assert_eq!(project_description(None, Some("corrimao".into())), "corrimao");
    assert_eq!(project_description(Some("  ".into()), None), "");
    assert_eq!(project_description(Some("obra".into()), Some(" \n".into())), "obra");
}

#[test]
fn tracked_seconds_ignore_negative_durations() {
    assert_eq!(tracked_seconds(&vec![3600, 1800, -5, 1800]), 7200);
    assert_eq!(tracked_seconds(&vec![]), 0);
}

#[test]
fn a_second_import_is_refused() {
    assert!(check_not_imported(&None).is_ok());
    let refused = check_not_imported(&Some("2026-08-19T00:00:00Z".into())).unwrap_err();
    assert_eq!(refused.code, ErrorCode::InvalidInput);
    assert!(refused.message.contains("ja foi importado"));
}

#[test]
fn an_empty_report_counts_nothing() {
    let report = ImportReport::default();
    assert_eq!(report.projects, 0);
    assert_eq!(report.tracked_seconds, 0);
    assert_eq!(report, ImportReport::default());
}

// ---------------------------------------------------------------- backup

fn manifest() -> BackupManifest {
    new_manifest("2026-08-19T00:00:00Z".into(), 10, "abc".into(), 4096)
}

#[test]
fn a_fresh_manifest_is_accepted() {
    let m = manifest();
    assert_eq!(m.format, "m-os-backup");
    assert_eq!(m.format_version, 1);
    assert_eq!(m.schema_version, SCHEMA_VERSION);
    assert!(check_manifest(&m).is_ok());
}

#[test]
fn an_unknown_format_is_invalid() {
    let mut m = manifest();
    m.format = "zip".into();
    let e = check_manifest(&m).unwrap_err();
    assert_eq!(e.code, ErrorCode::BackupInvalid);
    assert_eq!(e.message, "Backup invalido: Formato de backup desconhecido.");
    let mut m = manifest();
    m.format_version = 2;
    assert_eq!(check_manifest(&m).unwrap_err().code, ErrorCode::BackupInvalid);
}

#[test]
fn a_backup_of_a_newer_version_is_unsupported() {
    let mut m = manifest();
    m.schema_version = SCHEMA_VERSION + 1;
    let e = check_manifest(&m).unwrap_err();
    assert_eq!(e.code, ErrorCode::UnsupportedBackup);
    assert_eq!(e.message, "O backup pertence a uma versao mais nova do M/OS.");
}

#[test]
fn a_tampered_database_is_refused() {
    let m = manifest();
    assert!(check_database_file(&m, 4096, "abc").is_ok());
    let e = check_database_file(&m, 4095, "abc").unwrap_err();
    assert_eq!(e.message, "Backup invalido: O checksum do backup nao confere.");
    assert!(check_database_file(&m, 4096, "abd").is_err());
    assert!(check_database_contents(&m, SCHEMA_VERSION, 10).is_ok());
    let e = check_database_contents(&m, SCHEMA_VERSION, 9).unwrap_err();
    assert_eq!(e.message, "Backup invalido: O manifest nao corresponde ao banco do backup.");
    assert_eq!(backup_invalid("x").message, "Backup invalido: x");
}

#[test]
fn the_checksum_is_lowercase_sha256() {
    assert_eq!(
        database_checksum(b"abc"),
        "ba7816bf8f01cfea414140de5dae2223b00361a396177a9cb410ff61f20015ad"
    );
    assert_eq!(
        database_checksum(b""),
        "e3b0c44298fc1c149afbf4c8996fb92427ae41e4649b934ca495991b7852b855"
    );
}

#[test]
fn snapshot_names() {
    assert_eq!(daily_snapshot_name("2026-08-22"), "daily-20260822.mos-backup");
    assert_eq!(safety_snapshot_name("20260822-101500"), "safety-20260822-101500.mos-backup");
}

#[test]
fn pruning_keeps_the_newest_daily_snapshots() {
    let names: Vec<String> = vec![
        "daily-20260803.mos-backup",
        "safety-20260801-000000.mos-backup",
        "daily-20260801.mos-backup",
        "pre-migration-v16-1.db",
        "daily-20260802.mos-backup",
        "daily-20260804.mos-backup",
    ]
    .into_iter()
    .map(String::from)
    .collect();
    let pruned = daily_backups_to_prune(&names, 2);
    assert_eq!(pruned, vec!["daily-20260801.mos-backup".to_string(), "daily-20260802.mos-backup".to_string()]);
    assert!(daily_backups_to_prune(&names, 7).is_empty());
    assert!(daily_backups_to_prune(&names, 4).is_empty());
    assert_eq!(daily_backups_to_prune(&names, 3), vec!["daily-20260801.mos-backup".to_string()]);
    assert!(name_less("daily-1", "daily-2"));
    assert!(name_less("daily", "daily-1"));
    assert!(!name_less("daily-2", "daily-1"));
}

// ---------------------------------------------------------------- academic

#[test]
fn column_lists_declare_their_columns() {
    assert_eq!(colunas_de(SEMESTER_COLUMNS), 8);
    assert_eq!(colunas_de(SUBJECT_COLUMNS), 10);
    assert_eq!(colunas_de(ASSIGNMENT_COLUMNS), 18);
    assert_eq!(colunas_de(EXAM_COLUMNS), 17);
    assert_eq!(colunas_de(STUDY_COLUMNS), 9);
    assert_eq!(colunas_de(""), 1);
    assert_eq!(colunas_de("a,,b"), 3);
}

#[test]
fn lifecycle_filter_includes_archived_on_request() {
    assert_eq!(lifecycle_filter(true), "IN ('active', 'archived')");
    assert_eq!(lifecycle_filter(false), "= 'active'");
}

#[test]
fn provider_words_read_back() {
    for state in [ProviderConnection::Disconnected, ProviderConnection::Connected, ProviderConnection::Expired] {
        assert_eq!(parse_connection(estado_str(state)), state);
    }
    for outcome in [
        SyncOutcome::Completed,
        SyncOutcome::CompletedWithWarnings,
        SyncOutcome::RequiresAuthentication,
        SyncOutcome::Failed,
    ] {
        assert_eq!(parse_outcome(resultado_str(outcome)), Some(outcome));
    }
    assert_eq!(parse_connection("whatever"), ProviderConnection::Disconnected);
    assert_eq!(parse_outcome("whatever"), None);
    assert_eq!(estado_str(ProviderConnection::Expired), "expired");
    assert_eq!(resultado_str(SyncOutcome::CompletedWithWarnings), "completed_with_warnings");
    assert_eq!(kind_str(ExternalKind::Material), "material");
    assert_eq!(tracked_count(-3), 0);
    assert_eq!(tracked_count(12), 12);
}

// ---------------------------------------------------------------- ingestion and devices

#[test]
fn a_step_runs_only_from_the_expected_state() {
    assert!(check_state(Some("receiving".into()), &vec!["receiving", "preserved"]).is_ok());
    let gone = check_state(Some("completed".into()), &vec!["receiving"]).unwrap_err();
    assert_eq!(gone.code, ErrorCode::InvalidTransition);
    assert_eq!(gone.message, "Esta ingestao ja saiu do estado 'completed'.");
    let missing = check_state(None, &vec!["receiving"]).unwrap_err();
    assert_eq!(missing.code, ErrorCode::NotFound);
    assert_eq!(missing.message, "Ingestao nao encontrada.");
    assert!(ensure_changed(1).is_ok());
    assert_eq!(ensure_changed(0).unwrap_err().code, ErrorCode::NotFound);
}

#[test]
fn stored_sizes_are_unsigned() {
    assert_eq!(byte_size(-1), 0);
    assert_eq!(byte_size(12), 12);
    assert_eq!(page_count(Some(-4)), Some(0));
    assert_eq!(page_count(Some(3)), Some(3));
    assert_eq!(page_count(None), None);
    assert_eq!(image_size(Some(640), Some(480)), Some(ImageSize { width: 640, height: 480 }));
    assert_eq!(image_size(Some(640), None), None);
    assert_eq!(image_size(Some(-1), Some(2)), Some(ImageSize { width: 0, height: 2 }));
}

#[test]
fn the_device_id_comes_from_the_row_then_the_anchor() {
    assert_eq!(device_id_for(Some("a".into()), Some("b".into())), Some("a".to_string()));
    assert_eq!(device_id_for(None, Some("b".into())), Some("b".to_string()));
    assert_eq!(device_id_for(None, None), None);
}

#[test]
fn search_terms_are_trimmed_and_escaped() {
    assert_eq!(like_pattern("  Estatica  "), Some("%Estatica%".to_string()));
    assert_eq!(like_pattern("50%"), Some("%50\\%%".to_string()));
    assert_eq!(like_pattern("a_b\\c"), Some("%a\\_b\\\\c%".to_string()));
    assert_eq!(like_pattern("   "), None);
    assert_eq!(like_pattern(""), None);
    assert_eq!(like_escape("100% _"), "100\\% \\_");
}

#[test]
fn trimming_follows_unicode_white_space() {
    assert_eq!(trim("\u{3000}\t texto livre \u{a0}\n"), "texto livre");
    assert_eq!(trim("   "), "");
    assert_eq!(trim("x"), "x");
    assert_eq!(trim(" a b "), "a b");
    for sample in ["  ok ", "\u{2003}z\u{2028}", "", "\u{85}q"] {
        assert_eq!(trim(sample), sample.trim());
    }
}
