[package]
name = "gitpatcher"
version = "0.1.0"
edition = "2021"
publish = false

[dependencies]
arrayvec = "0.7"
bstr = "1"
camino = "1"
diffy = "*"
git2 = { version = "*", default-features = false }
time = { version = "0.3", features = ["parsing"] }
anyhow = "1"
clap = { version = "4", features = ["derive"] }
slog = "2"
slog-term = "2"
thiserror = "1"
