[package]
name = "caldav_utils"
version = "0.1.0"
edition = "2021"
publish = false

[dependencies]
anyhow = "1"
axum = { version = "0.6", features = ["macros"] }
chrono = { version = "0.4", features = ["serde"] }
clap = { version = "4", features = ["derive"] }
http = "0.2"
icalendar = "0.15"
ksuid = "0.2"
minidom = "0.15"
reqwest = "0.11"
rrule = "0.10"
serde = { version = "1", features = ["derive"] }
serde_with = { version = "2", features = ["chrono_0_4"] }
thiserror = "1"
tokio = { version = "1", features = ["full"] }
tower-http = { version = "0.4", features = ["fs"] }
tracing = "0.1"
tracing-subscriber = "0.3"
url = "2"

[dev-dependencies]
chrono-tz = "0.8"
