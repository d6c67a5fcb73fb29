[package]
name = "ears"
version = "0.1.0"
edition = "2021"
publish = false

[dependencies]
anyhow = "1"
arboard = { version = "3", default-features = false }
async-channel = "2"
clap = { version = "4", default-features = false, features = ["std", "help", "usage", "error-context", "derive", "env"] }
crossbeam-channel = "0.5"
ctrlc = "3"
enigo = { version = "0.2", default-features = false, features = ["x11rb"] }
futures-util = "0.3"
gtk4 = "0.9"
gtk4-layer-shell = "0.4"
libc = "0.2"
notifica = "3"
rdev = "0.5"
reqwest = { version = "0.12", default-features = false, features = ["json"] }
serde = { version = "1", features = ["derive"] }
serde_json = "=1.0.154"
tokio = { version = "1", features = ["macros", "rt-multi-thread", "signal", "sync", "time"] }
tokio-tungstenite = "0.24"
uinput = { version = "=0.1.3", default-features = false }
wl-clipboard-rs = "0.9"
