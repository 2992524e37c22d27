//! The errors of the storage, and how failures of SQLite and of the file
//! system become them.

use vstd::prelude::*;
use crate::sqlite::{self, SqlFailure};
use crate::text;

verus! {

/// The error categories that the storage reports to the rest of the product.
#[derive(Clone, Copy, Debug, PartialEq, Eq, Structural)]
pub enum ErrorCode {
    StorageUnavailable,
    StorageBusy,
    DataIntegrity,
    Io,
    NotFound,
    InvalidInput,
    InvalidTransition,
    UnsupportedBackup,
    BackupInvalid,
}

/// An error of the storage: a category, a message for the person, and whether
/// trying again may succeed.
#[derive(Debug)]
pub struct CoreError {
    pub code: ErrorCode,
    pub message: String,
    pub retryable: bool,
}

impl CoreError {
    /// An error with the given category, message and retry hint.
    pub fn new(code: ErrorCode, message: &str, retryable: bool) -> (e: CoreError)
        ensures
            e.code == code,
            e.message@ == message@,
            e.retryable == retryable,
    {
        CoreError { code, message: String::from_str(message), retryable }
    }

    /// An error that owns its message.
    pub fn with_message(code: ErrorCode, message: String, retryable: bool) -> (e: CoreError)
        ensures
            e.code == code,
            e.message@ == message@,
            e.retryable == retryable,
    {
        CoreError { code, message, retryable }
    }
}

/// A `NotFound` error that nobody should retry.
pub fn not_found(what: &str) -> (e: CoreError)
    ensures
        e.code == ErrorCode::NotFound,
        e.message@ == what@,
        !e.retryable,
{
    CoreError::new(ErrorCode::NotFound, what, false)
}

pub open spec fn busy_message() -> Seq<char> {
    "O banco local esta ocupado. Nada foi salvo; tente novamente."@
}

pub open spec fn disk_full_message() -> Seq<char> {
    "O disco esta sem espaco. Nada foi salvo."@
}

pub open spec fn corrupt_message() -> Seq<char> {
    "O banco local parece corrompido. Escritas foram bloqueadas."@
}

pub open spec fn storage_failure_prefix() -> Seq<char> {
    "Falha no armazenamento local: "@
}

/// The category a SQLite failure is reported under.
pub open spec fn sql_failure_code(failure: SqlFailure) -> ErrorCode {
    match failure {
        SqlFailure::Busy | SqlFailure::Locked => ErrorCode::StorageBusy,
        SqlFailure::DiskFull => ErrorCode::StorageUnavailable,
        SqlFailure::Corrupt => ErrorCode::DataIntegrity,
        SqlFailure::Other => ErrorCode::StorageUnavailable,
    }
}

/// The message a SQLite failure is reported with; `detail` is what the
/// failure displays.
pub open spec fn sql_failure_message(failure: SqlFailure, detail: Seq<char>) -> Seq<char> {
    match failure {
        SqlFailure::Busy | SqlFailure::Locked => busy_message(),
        SqlFailure::DiskFull => disk_full_message(),
        SqlFailure::Corrupt => corrupt_message(),
        SqlFailure::Other => storage_failure_prefix() + detail,
    }
}

/// Only a busy or locked database is worth trying again.
pub open spec fn sql_failure_retryable(failure: SqlFailure) -> bool {
    failure == SqlFailure::Busy || failure == SqlFailure::Locked
}

/// The error a SQLite failure of the given kind becomes.
pub fn map_sql_failure(failure: SqlFailure, detail: &str) -> (e: CoreError)
    ensures
        e.code == sql_failure_code(failure),
        e.message@ == sql_failure_message(failure, detail@),
        e.retryable == sql_failure_retryable(failure),
{
    match failure {
        SqlFailure::Busy | SqlFailure::Locked => CoreError::new(
            ErrorCode::StorageBusy,
            "O banco local esta ocupado. Nada foi salvo; tente novamente.",
            true,
        ),
        SqlFailure::DiskFull => CoreError::new(
            ErrorCode::StorageUnavailable,
            "O disco esta sem espaco. Nada foi salvo.",
            false,
        ),
        SqlFailure::Corrupt => CoreError::new(
            ErrorCode::DataIntegrity,
            "O banco local parece corrompido. Escritas foram bloqueadas.",
            false,
        ),
        SqlFailure::Other => CoreError::with_message(
            ErrorCode::StorageUnavailable,
            text::concatenate("Falha no armazenamento local: ", detail),
            false,
        ),
    }
}

/// The error a `rusqlite::Error` becomes: the kind that `sqlite::classify`
/// reports and the text the error displays decide it through
/// `map_sql_failure`.
pub fn map_sql_error(error: rusqlite::Error) -> (e: CoreError)
    ensures
        exists|failure: SqlFailure, detail: Seq<char>|
            {
                &&& e.code == sql_failure_code(failure)
                &&& e.message@ == sql_failure_message(failure, detail)
                &&& e.retryable == sql_failure_retryable(failure)
            },
        e.retryable <==> e.code == ErrorCode::StorageBusy,
{
    let kind = sqlite::classify(&error);
    let detail = sqlite::error_text(&error);
    map_sql_failure(kind, detail.as_str())
}

pub open spec fn io_prefix() -> Seq<char> {
    "Falha de arquivo local: "@
}

/// The error a failure of the file system becomes; `detail` is what the
/// failure displays.
pub fn map_io_error(detail: &str) -> (e: CoreError)
    ensures
        e.code == ErrorCode::Io,
        e.message@ == io_prefix() + detail@,
        !e.retryable,
{
    CoreError::with_message(ErrorCode::Io, text::concatenate("Falha de arquivo local: ", detail), false)
}

pub open spec fn lock_prefix() -> Seq<char> {
    "Acesso ao banco local foi interrompido: "@
}

/// The error a poisoned lock around the connection becomes; `detail` is what
/// the poison error displays.
pub fn map_lock_error(detail: &str) -> (e: CoreError)
    ensures
        e.code == ErrorCode::StorageUnavailable,
        e.message@ == lock_prefix() + detail@,
        !e.retryable,
{
    CoreError::with_message(
        ErrorCode::StorageUnavailable,
        text::concatenate("Acesso ao banco local foi interrompido: ", detail),
        false,
    )
}

/// Only busy errors may be retried: no other SQLite failure is reported as
/// retryable, and a busy or locked database always is.
pub proof fn law_only_busy_is_retryable(failure: SqlFailure, detail: Seq<char>)
    ensures
        sql_failure_retryable(failure) <==> sql_failure_code(failure) == ErrorCode::StorageBusy,
        sql_failure_retryable(failure) <==> (failure == SqlFailure::Busy || failure
            == SqlFailure::Locked),
        sql_failure_code(failure) == ErrorCode::DataIntegrity <==> failure == SqlFailure::Corrupt,
{
}

} // verus!
