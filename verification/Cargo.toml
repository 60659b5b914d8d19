[package]
name = "agent_activity"
version = "0.1.0"
edition = "2021"
publish = false

[dependencies]
holo_hash = "=0.4.4"
holochain_zome_types = "=0.4.4"
