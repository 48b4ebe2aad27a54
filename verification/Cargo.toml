[package]
name = "clap_couture"
version = "0.1.0"
edition = "2021"
publish = false

[dependencies]
clap = { version = "=4.6.7", features = ["string"] }
console = "=0.16.6"
heck = "=0.5.0"
unicode-width = "=0.2.3"
pulldown-cmark = { version = "=0.13.6", default-features = false }
syn = { version = "=2.0.119", features = ["full"] }
quote = "=1.0.47"
proc-macro2 = "=1.0.107"
serde = { version = "=1.0.229", features = ["derive"] }
serde_tokenstream = "=0.3.0"
thiserror = "=2.0.21"
dialoguer = "=0.12.0"
inquire = "=0.9.4"
cliclack = "=0.5.7"
