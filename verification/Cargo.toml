[package]
name = "node_identity"
version = "0.1.0"
edition = "2021"
publish = false

[dependencies]
anyhow = "=1.0.104"
secrecy = "=0.8.0"
xshell = "=0.2.7"
zksync_basic_types = "=0.1.0"
zksync_consensus_crypto = "=0.7.0"
zksync_consensus_roles = "=0.7.0"

[dev-dependencies]
serde_yaml = "=0.9.34"
