[package]
name = "mos_storage_sqlite"
version = "0.2.0"
edition = "2021"
publish = false

[dependencies]
rusqlite = { version = "=0.41.1", features = ["bundled", "backup"] }
sha2 = "=0.11.1"
hex = "=0.4.3"
time = { version = "=0.3.55", features = ["formatting", "parsing", "macros"] }
serde = { version = "=1.0.229", features = ["derive"] }
serde_json = "=1.0.154"
uuid = { version = "=1.29.0", features = ["v7"] }
zip = { version = "=2.6.1", default-features = false, features = ["deflate"] }
tempfile = "=3.27.0"
