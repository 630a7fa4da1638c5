[package]
name = "umasim"
version = "0.1.0"
edition = "2021"
publish = false

[dependencies]
anyhow = "1"
colored = "3"
fs-err = "3"
hashbrown = "0.15"
lexopt = "0.3"
log = "0.4"
rand = "0.9"
rayon = "1"
serde = { version = "1", features = ["derive"] }
serde_json = "1"
text-to-ascii-art = "*"
tokio = { version = "1", features = ["macros", "rt-multi-thread"] }
toml = "0.8"
