[package]
name = "columnar_archive"
version = "0.1.0"
edition = "2021"
publish = false

[dependencies]
serde = { version = "*", features = ["derive"] }
serde_json = "*"
rusqlite = { version = "*", features = ["bundled"] }
clap = { version = "*", features = ["derive"] }
arrow2 = { version = "*", default-features = false, features = ["io_parquet"] }
