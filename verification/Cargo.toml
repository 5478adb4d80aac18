[package]
name = "ffmfrog"
version = "0.1.0"
edition = "2021"
publish = false

[dependencies]
anyhow = "1"
clap = { version = "4", features = ["derive"] }
dirs = "*"
egui-file-dialog = "*"
egui-sf2g = "*"
libmpv-sys = "*"
rand = "0.9"
recently_used_list = "*"
serde = { version = "1", features = ["derive"] }
sf2g = "*"
shell-words = "1"
thiserror = "*"
toml = "*"
