[package]
name = "hoshino"
version = "0.1.0"
edition = "2021"
publish = false

[dependencies]
clap = { version = "*", features = ["derive"] }
crossterm = "*"
git2 = { version = "*", default-features = false }
ignore = "*"
image = { version = "*", default-features = false, features = ["png", "jpeg", "gif", "webp"] }
jiff = "*"
libc = "0.2"
quick-xml = "*"
ratatui = { version = "*", default-features = false, features = ["crossterm"] }
ratatui-image = { version = "*", default-features = false, features = ["crossterm"] }
serde = { version = "1", features = ["derive"] }
serde_json = "1"
sysinfo = { version = "*", default-features = false, features = ["system", "disk"] }
toml = "*"
