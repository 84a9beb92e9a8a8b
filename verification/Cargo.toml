[package]
name = "mnemonic_scan"
version = "0.1.0"
edition = "2021"
publish = false

[dependencies]
bip32 = "=0.5.3"
bip39 = "=2.2.2"
bitcoin = "=0.32.102"
bitcoin-address-generator = "=0.2.0"
chrono = "=0.4.45"
reqwest = { version = "=0.13.5", features = ["json"] }
serde = { version = "=1.0.229", features = ["derive"] }
tokio = { version = "=1.54.1", features = ["macros", "rt-multi-thread"] }
