[package]
name = "risp"
version = "0.1.0"
edition = "2021"
publish = false

[dependencies]
aho-corasick = "=1.1.5"
itertools = "=0.15.0"
nix = { version = "=0.31.3", features = ["time"] }
rustyline = "=19.0.0"
tracing-subscriber = "=0.3.23"

[dev-dependencies]
nom = "7"
