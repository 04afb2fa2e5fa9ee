[package]
name = "jira_summary"
version = "0.1.0"
edition = "2021"
publish = false

[dependencies]
chrono = "0.4"
urlencoding = "2"
html_parser = "0.7"
serde = { version = "1", features = ["derive"] }
serde_json = "1"
isahc = "1"
futures = "0.3"
dirs = "5"
tracing = "0.1"
tracing-subscriber = { version = "0.3", features = ["env-filter"] }
