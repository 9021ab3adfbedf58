[package]
name = "vote_bootstrap"
version = "0.1.0"
edition = "2021"
publish = false

[dependencies]
anyhow = "*"
bip0039 = "*"
orchard = "*"
r2d2 = "*"
r2d2_sqlite = "*"
slug = "*"
futures = "*"
