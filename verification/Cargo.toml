[package]
name = "ragrig_bench"
version = "0.3.0"
edition = "2021"
publish = false

[dependencies]
anyhow = "=1.0.104"
async-trait = "=0.1.92"
clap = { version = "4", default-features = false, features = ["std", "derive", "help", "usage", "error-context"] }
ragrig = { version = "=1.1.2", features = ["epub", "test-fixtures"] }
serde = { version = "=1.0.229", features = ["derive"] }
serde_json = "=1.0.145"
tempfile = "=3.27.0"
tokio = { version = "=1.54.1", features = ["macros", "rt-multi-thread"] }
toml = "=1.1.8"

# Held back for the compiler that builds the crate and for a smaller tree.
encoding_rs = "=0.8.35"
idna_adapter = "=1.1.0"
jiff = "=0.2.15"
pdfsink-rs = "=0.2.8"
