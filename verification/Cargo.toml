[package]
name = "nostr_likes"
version = "0.1.0"
edition = "2021"
publish = false

[dependencies]
anyhow = "1"
bech32 = "0.9"
clap = { version = "4", features = ["derive"] }
nostr-sdk = "0.22"
serde_json = { version = "1", features = ["raw_value"] }
tokio = { version = "1", features = ["macros", "rt-multi-thread"] }
xdg = "2"
