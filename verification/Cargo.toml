[package]
name = "zkvm_core"
version = "0.1.0"
edition = "2021"
publish = false

[dependencies]
p3-field = "=0.1.0"
p3-baby-bear = "=0.1.0"
p3-matrix = "=0.1.0"
p3-air = "=0.1.0"
p3-commit = "=0.1.0"
p3-challenger = "=0.1.0"
p3-uni-stark = "=0.1.0"
num = "=0.4.3"
curve25519-dalek = "=4.1.3"
k256 = { version = "=0.13.4", features = ["expose-field"] }
elliptic-curve = "=0.13.8"
bincode = "=1.3.3"
serde = { version = "=1.0.229", features = ["derive"] }
