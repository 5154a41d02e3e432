[package]
name = "floaty"
version = "0.1.0"
edition = "2021"
publish = false

[dependencies]
min-heap = "*"
chrono = { version = "0.4", features = ["serde"] }
tokio = { version = "1", features = ["sync", "time", "macros", "rt"] }
serde = { version = "1", features = ["derive"] }
thiserror = "1"
log = "0.4"
diesel = { version = "2", features = ["sqlite", "chrono", "returning_clauses_for_sqlite_3_35"] }
diesel_migrations = "2"
deadpool-diesel = { version = "0.6", features = ["sqlite"] }
tauri = { version = "2", default-features = false }
tauri-plugin-log = "2"
