[package]
name = "github_activity"
version = "0.1.0"
edition = "2021"
publish = false

[dependencies]
aes-gcm = "0.10"
anyhow = "1"
axum = { version = "0.6", default-features = false, features = ["json"] }
base64 = "0.22"
bytes = "1"
chrono = "0.4"
futures = "0.3"
http = "1"
log = "0.4"
parking_lot = "0.12"
rand = "0.9"
regex = "1"
reqwest = { version = "0.12", default-features = false }
sea-orm = { version = "1.1", default-features = false, features = ["macros", "with-chrono"] }
serde = { version = "1", features = ["derive"] }
serde_json = "1"
serde_urlencoded = "0.7"
sha2 = "0.10"
thiserror = "2"
time = { version = "0.3", features = ["formatting", "parsing"] }
url = "2"
yawc = "*"
