[package]
name = "workspace_capsules"
version = "0.1.0"
edition = "2021"
publish = false

[dependencies]
dirs = "*"
i3ipc = "*"
serde = "*"
serde_derive = "*"
serde_yaml = "*"
