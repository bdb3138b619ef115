[package]
name = "wlog"
version = "0.1.0"
edition = "2021"
publish = false

[dependencies]
anyhow = "1"
arboard = "*"
clap = { version = "4", features = ["derive"] }
comfy-table = "=7.2.2"
console = "*"
diesel = { version = "2", features = ["sqlite", "returning_clauses_for_sqlite_3_35", "time"] }
directories = "*"
libsqlite3-sys = { version = "*", features = ["bundled"] }
owo-colors = "*"
rustyline = "*"
serde = { version = "1", features = ["derive"] }
time = { version = "=0.3.55", features = ["parsing", "formatting", "local-offset", "serde-human-readable"] }
toml = "*"
