[package]
name = "vlz_core"
version = "0.1.0"
edition = "2021"
publish = false

[dependencies]
serde = { version = "1", features = ["derive"] }
serde_json = "1"
sha2 = "0.10"
semver = "1"
thiserror = "2"
anyhow = "1"
async-trait = "0.1"
url = "2"
lsp-server = "*"
lsp-types = "*"
rustix = { version = "*", features = ["fs"] }
