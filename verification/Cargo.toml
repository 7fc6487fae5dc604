[package]
name = "logria"
version = "0.1.0"
edition = "2021"
publish = false

[dependencies]
regex = "1"
time = { version = "0.3", features = ["parsing", "formatting"] }
crossterm = "0.26"
clap = { version = "4", features = ["cargo"] }
dirs = "5"
is_executable = "1"
serde = { version = "1", features = ["derive"] }
serde_json = "1"
format_num = "0.1"
