[package]
name = "grimoire"
version = "0.1.0"
edition = "2021"
publish = false

[dependencies]
anyhow = "1"
camino = "1"
comrak = { version = "*", default-features = false }
futures = "0.3"
gray_matter = "*"
hashbrown = "*"
id-arena = "2"
pulldown-cmark = "*"
serde = { version = "1", features = ["derive"] }
slug = "*"
sqlx = { version = "*", default-features = false, features = ["sqlite", "runtime-tokio", "migrate"] }
tokio = { version = "1", features = ["fs", "sync", "rt"] }
tracing = "0.1"
