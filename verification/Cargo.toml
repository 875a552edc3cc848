[package]
name = "overlord"
version = "0.1.0"
edition = "2021"
publish = false

[dependencies]
alloy-rlp = "*"
bcs = "*"
bit-vec = "*"
bytes = { version = "*", features = ["serde"] }
creep = "*"
derive_more = { version = "*", features = ["display"] }
futures = "*"
hummer = "*"
log = "*"
serde = { version = "*", features = ["derive"] }
tokio = { version = "*", features = ["rt", "time"] }

[dev-dependencies]
rand = "*"
