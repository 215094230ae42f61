[package]
name = "whisrs"
version = "0.1.0"
edition = "2021"
publish = false

[dependencies]
anyhow = "1"
arboard = { version = "3", default-features = false }
chrono = { version = "0.4", default-features = false, features = ["clock"] }
clap = { version = "4", features = ["derive"] }
cpal = "0.15"
dialoguer = { version = "0.11", features = ["editor", "password"] }
dirs = "6"
evdev = "0.12"
hound = "3"
indicatif = "0.17"
reqwest = { version = "0.12", default-features = false, features = ["blocking"] }
rustix = { version = "1", features = ["fs"] }
serde = { version = "1", features = ["derive"] }
serde_json = "1"
strsim = "0.11"
tokio = { version = "1", features = ["rt-multi-thread", "macros", "net", "io-util", "sync"] }
toml = "0.8"
toml_edit = "0.22"
tracing = "0.1"
wayland-client = "0.31"
wayland-protocols-misc = { version = "0.3", features = ["client"] }
xkbcommon = { version = "0.8", default-features = false }

[dev-dependencies]
tempfile = "3"
