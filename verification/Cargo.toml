[package]
name = "acre"
version = "0.1.0"
edition = "2021"
publish = false

[dependencies]
anyhow = "1"
byteorder = "1"
crossbeam-channel = "0.5"
diff = "*"
lazy_static = "1"
lsp-types = "0.93"
nine = "*"
regex = "1"
serde = { version = "1", features = ["derive"] }
serde_json = { version = "1", features = ["raw_value"] }
toml = "*"
xdg = "*"
