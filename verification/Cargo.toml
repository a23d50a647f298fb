[package]
name = "sql_orm"
version = "0.1.0"
edition = "2021"
publish = false

[dependencies]
Inflector = "=0.11.4"
serde = { version = "=1.0.229", features = ["derive"] }
serde_json = "=1.0.154"
syn = { version = "=1.0.109", features = ["full", "extra-traits"] }
quote = "=1.0.47"
proc-macro2 = "=1.0.107"
