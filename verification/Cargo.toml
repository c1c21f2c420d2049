[package]
name = "lizi_engine2d"
version = "0.1.0"
edition = "2021"
publish = false

[dependencies]
ndarray = "*"
ndrustfft = "*"
num-complex = "0.4"
num-traits = "0.2"
rand = "0.8"
serde = { version = "1", features = ["derive"] }
serde_json = "1"
