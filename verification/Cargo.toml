[package]
name = "conveyor_line_engine"
version = "0.1.0"
edition = "2021"
publish = false

[dependencies]
bimap = "0.6"
crossterm = "0.25"
json = "0.12"
linked-hash-map = "0.5"
mlua = { version = "0.9", features = ["lua54", "vendored"] }
once_cell = "1"
rand = "0.8"
serde = { version = "1", features = ["derive"] }
toml = "0.8"
tui = "0.19"
