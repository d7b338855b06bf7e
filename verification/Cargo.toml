[package]
name = "heatmap_tiles"
version = "0.1.0"
edition = "2021"
publish = false

[dependencies]
chrono = { version = "0.4", default-features = false, features = ["std"] }
image = { version = "0.25", default-features = false, features = ["png"] }
rstar = "0.12"
actix-web = { version = "4", default-features = false, features = ["macros"] }
actix-files = "0.6"
parquet = { version = "*", default-features = false }
serde = { version = "1", features = ["derive"] }
walkdir = "2"
