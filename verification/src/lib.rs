//! Verified core of the M/OS local SQLite storage.
//!
//! The library holds what the storage decides: which migrations an opening
//! applies, when a database is durable and whole enough to be used, which
//! orphan references a migration is answerable for, how SQLite failures become
//! errors of the product, when a backup may be trusted, and the small text and
//! bookkeeping rules of the repositories.

pub mod error;
pub mod sqlite;
pub mod text;
pub mod schema;
pub mod clock;
pub mod storage;
pub mod cronocad;
pub mod backup;
pub mod academic;
pub mod academic_provider;
pub mod device;
pub mod ingestion;
pub mod daily;
pub mod meeting;
pub mod apps;
pub mod conversation;
pub mod attention;
