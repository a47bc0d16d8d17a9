[package]
name = "himalaya-tui"
version = "0.1.0"
edition = "2021"
publish = false

[dependencies]
anyhow = "=1.0.104"
base64 = "=0.23.1"
chrono = "=0.4.45"
clap = { version = "=4.6.7", features = ["derive", "env"] }
edtui = { version = "=0.11.7", default-features = false, features = ["system-editor"] }
io-imap = "=0.6.1"
io-jmap = "=0.6.0"
io-maildir = "=0.3.1"
io-pim-discovery = { version = "=0.9.0", features = ["rfc8620"] }
io-sasl = "=0.1.0"
log = "=0.4.35"
mail-parser = "=0.11.9"
pimalaya-cli = { version = "=0.2.6", default-features = false, features = ["prompt", "imap", "smtp", "jmap", "wizard", "terminal", "spinner"] }
pimalaya-config = { version = "=0.2.1", default-features = false, features = ["toml", "secret"] }
pimalaya-stream = "=0.3.0"
ratatui = "=0.30.2"
secrecy = "=0.10.3"
serde = { version = "=1.0.229", features = ["derive"] }
shellexpand = "=3.1.2"
simplelog = "=0.12.2"
tui-input = "=0.15.5"
url = "=2.5.8"
