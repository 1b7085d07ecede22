[package]
name = "seventh_deck"
version = "0.1.0"
edition = "2021"
publish = false

[dependencies]
anyhow = "1"
console = "0.15"
dialoguer = "0.11"
glob = "0.3"
home = "0.5"
indicatif = "0.17"
log = "0.4"
log4rs = "1"
regex = "1"
reqwest = { version = "0.12", features = ["blocking", "json"] }
rfd = "0.15"
serde_json = "1"
steamlocate = ">=2.0.0-alpha.0, <3"
sysinfo = "0.30"
textwrap = "0.16"
toml = "0.8"
urlencoding = "2"
users = "0.11"
xdg = "3"
