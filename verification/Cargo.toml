[package]
name = "pa_bench"
version = "0.1.0"
edition = "2021"
publish = false

[dependencies]
chrono = { version = "=0.4.45", features = ["serde"] }
clap = { version = "=4.6.7", features = ["derive"] }
core_affinity = "=0.8.3"
ctrlc = "=3.5.2"
itertools = "=0.12.1"
libc = "0.2"
once_cell = "=1.21.4"
parse_duration = "=2.1.1"
parse-size = "=1.1.0"
rustix = { version = "=0.38.44", features = ["process"] }
serde = { version = "=1.0.229", features = ["derive"] }
serde_json = "=1.0.154"
serde_yaml = "0.9"
wait4 = "=0.1.3"
pa-types = "=1.5.0"
flate2 = "1"
tar = "0.4"
ureq = "2"
walkdir = "2"
zip-extract = "0.1"
fxhash = "0.2"
rayon = "1"
num = "0.4"
triple_accel = "=0.4.0"
block-aligner = { version = "=0.5.1", features = ["simd_sse2"] }
streaming-stats = "=0.2.3"
strum = { version = "0.26", features = ["derive"] }
