[package]
name = "cargo_reedme"
version = "0.1.0"
edition = "2021"
publish = false

[dependencies]
pulldown-cmark = { version = "0.13", default-features = false }
regex = "1"
rangemap = "1"
diff = "0.1"
serde = { version = "1", features = ["derive"] }
serde_json = "1"
toml = "*"
clap = { version = "4", features = ["derive"] }
clap-cargo = { version = "*", features = ["cargo_metadata", "clap"] }
clap-verbosity-flag = "*"
cargo_metadata = "*"
camino = "1"
rustdoc-types = "*"
rustdoc-json = "*"
eyre = "0.6"
fs-err = "*"
term = "*"
colored_json = "*"
semver = "1"
rayon = "1"
tracing = "0.1"
tracing-subscriber = { version = "0.3", features = ["env-filter"] }
