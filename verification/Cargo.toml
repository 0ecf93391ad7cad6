[package]
name = "tickets"
version = "0.2.1"
edition = "2021"
publish = false

[dependencies]
anyhow = "1"
clap = { version = "4", features = ["derive"] }
color-print = "*"
csv = "1"
directories = "*"
flate2 = "1"
rusqlite = { version = "*", features = ["bundled"] }
serde = { version = "1", features = ["derive"] }
tabular = "*"
tempfile = "3"
thousands = "*"
toml = "*"
