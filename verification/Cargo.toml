[package]
name = "mikan-judge"
version = "0.1.0"
edition = "2021"
publish = false

[dependencies]
anyhow = "1"
argon2 = "0.5"
async-trait = "0.1"
axum = "0.8"
chrono = { version = "0.4", features = ["serde"] }
libc = "0.2"
libseccomp = "*"
nix = { version = "*", features = ["process", "signal", "sched", "fs"] }
pulldown-cmark = { version = "*", default-features = false, features = ["html"] }
serde = { version = "1", features = ["derive"] }
serde_json = "1"
sqlx = { version = "0.8", default-features = false, features = ["runtime-tokio", "postgres", "uuid", "chrono", "migrate", "macros"] }
tempfile = "3"
tera = { version = "1", default-features = false }
time = "0.3"
tokio = { version = "1", features = ["full"] }
toml = "*"
tower-http = { version = "*", features = ["fs"] }
tower-sessions = "*"
tracing = "0.1"
tracing-subscriber = { version = "0.3", features = ["env-filter"] }
uuid = { version = "1", features = ["v4", "serde"] }
