[package]
name = "totp_cli"
version = "0.1.0"
edition = "2021"
publish = false

[dependencies]
basic-otp = "=0.1.1"
data-encoding = "=2.11.1"
toml = "*"
serde = { version = "*", features = ["derive"] }
serde_derive = "*"
structopt = "*"
app_dirs = "=1.2.1"
