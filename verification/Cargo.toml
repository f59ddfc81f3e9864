[package]
name = "mdbook_xmldoc"
version = "0.1.0"
edition = "2021"
publish = false

[dependencies]
clap = { version = "4", features = ["derive"] }
compact_str = { version = "0.7", features = ["serde"] }
fern = { version = "0.6", features = ["colored"] }
log = "0.4"
serde = { version = "1", features = ["derive"] }
serde_yaml = "0.9"
smallvec = { version = "1", features = ["serde"] }
