[package]
name = "activity_inquirer"
version = "1.0.0"
edition = "2021"
publish = false

[dependencies]
anyhow = "=1.0.104"
chrono = "=0.4.45"
clap = "=4.6.7"
dirs = "=5.0.1"
eframe = { version = "0.27", default-features = false, features = ["glow"] }
egui = { version = "=0.27.2", default-features = false }
rusqlite = { version = "=0.31.0", features = ["bundled"] }
serde = { version = "=1.0.229", features = ["derive"] }
tokio = { version = "=1.54.1", features = ["macros", "process", "rt-multi-thread", "time"] }
toml = "=0.8.23"
