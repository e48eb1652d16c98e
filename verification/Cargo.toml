[package]
name = "reinfer_cuda"
version = "0.1.0"
edition = "2021"
publish = false

[dependencies]
cudarc = { version = "0.19", default-features = false, features = ["std", "driver", "runtime", "cublas", "dynamic-loading", "cuda-13000"] }
serde_json = "1"
