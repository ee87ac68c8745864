[package]
name = "mon_fs_box"
version = "0.1.0"
edition = "2021"
publish = false

[dependencies]
flate2 = "1"
edit-distance = "2"
serde = "1"
serde_derive = "1"
serde_json = "1"
structopt = "0.3"
bincode = "1"
zip = { version = "*", default-features = false }

[dev-dependencies]
rand = "0.8"
rand_chacha = "0.3"
