[package]
name = "termcraft"
version = "0.1.0"
edition = "2021"
publish = false

[dependencies]
fluent-bundle = "=0.16.0"
fluent-syntax = "=0.12.0"
unic-langid = "=0.9.6"
intl-memoizer = "=0.5.3"
clap = "=4.6.7"
colored = "=3.1.1"
dirs-next = "=2.0.0"
figment = { version = "=0.10.19", features = ["json", "env"] }
once_cell = "=1.21.4"
parking_lot = "=0.12.5"
serde = { version = "=1.0.229", features = ["derive"] }
