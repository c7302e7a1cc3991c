[package]
name = "bigbox"
version = "0.1.0"
edition = "2021"
publish = false

[dependencies]
anyhow = "1"
clap = { version = "4", features = ["derive"] }
gilrs = "*"
macroquad = "0.4"
rand = "0.8"
ron = "0.8"
serde = { version = "1", features = ["derive"] }
thiserror = "1"
