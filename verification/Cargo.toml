[package]
name = "healpix_geo"
version = "0.1.0"
edition = "2021"
publish = false

[dependencies]
mortie-core = "0.1"
cdshealpix = "*"
rayon = "*"
serde = { version = "1", features = ["derive"] }
serde-wasm-bindgen = "*"
wasm-bindgen = "*"
geodesy = "*"
