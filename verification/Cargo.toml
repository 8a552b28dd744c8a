[package]
name = "hachiya"
version = "0.1.0"
edition = "2021"
publish = false

[dependencies]
bevy = { version = "=0.18.1", default-features = false, features = ["bevy_asset", "bevy_log", "std"] }
camino = "=1.2.6"
cargo_metadata = "=0.23.1"
dylib = "=0.0.3"
libloading = "=0.9.0"
stabby = { version = "=72.1.16", features = ["libloading"] }
thiserror = "=2.0.21"
