[package]
name = "agent_knowledge"
version = "0.1.0"
edition = "2021"
publish = false

[dependencies]
lindera = { version = "=5.3.0", default-features = false }
lindera-analysis = { version = "=5.3.0", default-features = false }
lindera-tantivy = { version = "=5.0.1", default-features = false }
nix = { version = "=0.31.3", features = ["fs", "signal"] }
serde = { version = "=1.0.229", features = ["derive"] }
serde-saphyr = "=2.0.0"
serde_json = "=1.0.154"
sha2 = "=0.11.1"
tantivy = "=0.26.2"
time = { version = "=0.3.55", features = ["formatting", "parsing", "macros"] }
ulid = "=3.0.0"
unicode-normalization = "=0.1.26"
