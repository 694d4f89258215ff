[package]
name = "reloady"
version = "0.1.0"
edition = "2021"
publish = false

[dependencies]
rustc-demangle = "0.1"
symbolic = { version = "*", default-features = false, features = ["debuginfo"] }
libloading = "*"
anyhow = "1"
clap = { version = "*", features = ["derive"] }
log = "0.4"
notify = "*"
pretty_env_logger = "*"
serde = { version = "1", features = ["derive"] }
toml = "*"
syn = { version = "*", features = ["full", "extra-traits"] }
quote = "1"
proc-macro2 = "1"
