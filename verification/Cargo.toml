[package]
name = "dx-story"
version = "0.1.0"
edition = "2021"
publish = false

[dependencies]
pulldown-cmark = { version = "=0.13.6", default-features = false, features = ["html"] }
cargo_metadata = "=0.23.1"
anyhow = "=1.0.104"
clap = { version = "=4.6.7", features = ["derive"] }
clap-cargo = "=0.19.0"
command-group = "=5.0.1"
const_format = "=0.2.37"
ctrlc = "=3.5.2"
dioxus = { version = "=0.7.10", default-features = false, features = ["macro", "html", "signals", "hooks", "router", "launch", "document"] }
inventory = "=0.3.25"
nix = { version = "=0.31.3", features = ["signal", "term", "process"] }
prettyplease = "=0.2.37"
proc-macro2 = "=1.0.107"
proc-macro-crate = "=3.5.0"
quote = "=1.0.47"
serde = { version = "=1.0.229", features = ["derive"] }
serde_json = "=1.0.154"
syn = { version = "=2.0.119", features = ["full", "extra-traits"] }
toml = "=1.1.8"
toml_edit = "=0.25.18"
walkdir = "=2.5.0"
