[package]
name = "zcash_extensions"
version = "0.1.0"
edition = "2021"
publish = false

[dependencies]
zcash_protocol = "=0.11.0"
zcash_transparent = "=0.11.0"
zcash_script = "=0.6.0"
zcash_primitives = { version = "=0.31.0", default-features = false }
