[package]
name = "yestergit"
version = "0.1.0"
edition = "2021"
publish = false

[dependencies]
anyhow = "*"
chrono = { version = "*", features = ["serde"] }
clap = { version = "*", features = ["derive"] }
colored = "*"
confy = "*"
directories = "*"
git2 = { version = "*", default-features = false }
rayon = "*"
reqwest = { version = "*", default-features = false, features = ["blocking", "json"] }
serde = { version = "*", features = ["derive"] }
serde_json = "*"
tabled = "*"
tempfile = "*"
walkdir = "*"
