[package]
name = "city_tiles_pos"
version = "0.1.0"
edition = "2021"
publish = false

[dependencies]
chrono = "0.4"
csv = "1"
bcrypt = "0.15"
serde = { version = "1", features = ["derive"] }
uuid = { version = "1", features = ["v4"] }
jsonwebtoken = "9"
ab_glyph = "0.2"
once_cell = "1"
log = "0.4"
thiserror = "1"
tracing = "0.1"
tokio = { version = "1", features = ["fs", "rt-multi-thread", "macros", "sync"] }
sqlx = { version = "0.8", default-features = false, features = ["sqlite", "runtime-tokio", "migrate"] }
rusb = "0.9"
genpdf = "0.2"
