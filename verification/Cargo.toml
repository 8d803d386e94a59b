[package]
name = "ggsw_lab"
version = "0.1.0"
edition = "2021"
publish = false

[dependencies]
concrete-core = { version = "=1.0.2", features = ["backend_default", "backend_fft", "backend_default_serialization", "seeder_unix"] }
aligned-vec = "=0.5.0"
dyn-stack = "=0.8.3"
