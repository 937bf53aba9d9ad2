[package]
name = "friends"
version = "0.1.0"
edition = "2021"
publish = false

[dependencies]
axum = "*"
deadpool-diesel = { version = "*", features = ["sqlite"] }
diesel = { version = "*", features = ["sqlite", "returning_clauses_for_sqlite_3_35"] }
dotenvy = "*"
libsqlite3-sys = { version = "*", features = ["bundled"] }
serde = { version = "*", features = ["derive"] }
tokio = { version = "*", features = ["macros", "rt-multi-thread", "net"] }
tower-http = { version = "*", features = ["fs", "trace"] }
tracing = "*"
tracing-subscriber = { version = "*", features = ["env-filter", "fmt"] }
