[package]
name = "ech_board"
version = "0.1.0"
edition = "2021"
publish = false

[dependencies]
base64 = "0.22"
bcs = "0.1"
blake2 = "0.10"
csv = "1"
ed25519-dalek = "2"
encoding_rs = "0.8"
envy = "0.4"
hex = "0.4"
image = { version = "0.25", default-features = false, features = ["jpeg", "png", "webp"] }
iso3166 = "*"
pwhash = "1"
serde = { version = "1", features = ["derive"] }
serde_json = "1"
sha1 = "0.10"
sui-sdk-types = { version = "*", features = ["hash", "serde"] }
clap = { version = "4", features = ["derive"] }
tokio = { version = "1", features = ["full"] }
actix-web = "4"
futures = "0.3"
