[package]
name = "kryphocron_lexicons"
version = "0.3.0"
edition = "2021"
publish = false

[dependencies]
proto-blue-syntax = "*"
proto-blue-lexicon = "*"
proto-blue-lex-data = "*"
thiserror = "*"
serde = { version = "1", features = ["derive"] }
serde_json = "1"
sha2 = "*"
which = "*"
