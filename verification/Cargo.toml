[package]
name = "oxide_explorer"
version = "0.4.0"
edition = "2021"
publish = false

[dependencies]
chrono = "0.4"
regex = "1"
gtk4 = { version = "0.9", features = ["v4_12"] }
libadwaita = { version = "0.7", features = ["v1_4"] }
glib = "0.20"
gio = "0.20"
vte4 = "0.8"
mlua = { version = "0.10", features = ["lua54", "vendored"] }
tokio = { version = "1", features = ["fs", "rt-multi-thread"] }
nix = { version = "0.29", features = ["user", "fs"] }
trash = "5"
xattr = "1"
walkdir = "2"
dirs = "5"
toml = "0.8"
serde = { version = "1", features = ["derive"] }
log = "0.4"
env_logger = "0.11"
