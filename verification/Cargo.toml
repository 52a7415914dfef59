[package]
name = "dnf_repofile"
version = "0.1.2"
edition = "2021"
publish = false

[dependencies]
camino = "1"
indexmap = "2"
thiserror = "2"
url = "2"
