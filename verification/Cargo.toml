[package]
name = "wf-recorder-gui"
version = "1.0.0-beta"
edition = "2021"
publish = false

[dependencies]
chrono = "0.4"
dirs = "5"
which = "6"
serde = { version = "1", features = ["derive"] }
serde_json = "1"
toml = "0.8"
clap = { version = "4", features = ["derive"] }
log = "0.4"
env_logger = "0.11"
tokio = { version = "1", features = ["rt-multi-thread", "sync", "macros"] }
futures-util = "0.3"
ashpd = { version = "0.9", default-features = false, features = ["tokio"] }
ksni = "0.2"
crossterm = "0.28"
ratatui = "0.28"
gtk = "0.18"
gdk = "0.18"
gio = "0.18"
glib = "0.18"
pango = "0.18"
