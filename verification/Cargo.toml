[package]
name = "lance"
version = "0.1.0"
edition = "2021"
publish = false

[dependencies]
dirs = "5"
object_store = { version = "0.10", default-features = false }
serde = { version = "1", features = ["derive"] }
serde_json = "1"
tantivy = { version = "0.22", default-features = false, features = ["stopwords"] }
