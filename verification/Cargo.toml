[package]
name = "digestiflow"
version = "0.1.0"
edition = "2021"
publish = false

[dependencies]
sxd-document = "*"
sxd-xpath = "*"
chrono = "*"
flate2 = "*"
rand = "*"
rand_xorshift = "*"
serde = "*"
serde_derive = "*"
clap = "*"
config = "*"
shellexpand = "*"
restson = "*"
rayon = "*"
glob = "*"
