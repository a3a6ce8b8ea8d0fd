[package]
name = "cypress_astro"
version = "0.1.0"
edition = "2021"
publish = false

[dependencies]
async-trait = "0.1"
bincode = "1"
bno080 = "0.1"
canonical-error = "0.1"
chrono = "0.4"
env_logger = "0.11"
image = { version = "0.25", default-features = false }
linux-embedded-hal = "0.4"
log = "0.4"
nalgebra = "0.34"
pico-args = "0.5"
rstar = { version = "0.12", features = ["serde"] }
rusqlite = { version = "0.37", features = ["functions", "bundled"] }
serde = { version = "1", features = ["derive"] }
starfield = "0.18"
tetra3 = "0.14"
tiny_http = "0.12"
tokio = { version = "1", features = ["full"] }
