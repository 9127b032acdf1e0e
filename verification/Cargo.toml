[package]
name = "frontend_analyzer"
version = "0.1.0"
edition = "2021"
publish = false

[dependencies]
anyhow = "=1.0.104"
async-stream = "0.3"
clap = { version = "=4.6.7", features = ["derive"] }
glob = "=0.3.4"
konveyor-core = { version = "=0.0.4", features = ["grpc"] }
libc = "=0.2.191"
oxc_allocator = "=0.124.0"
oxc_ast = { version = "=0.124.0", features = ["serialize"] }
oxc_parser = "=0.124.0"
oxc_resolver = "=11.19.2"
oxc_span = "=0.124.0"
regex = "=1.13.1"
serde = { version = "=1.0.229", features = ["derive"] }
serde_json = { version = "=1.0.154", features = ["unbounded_depth"] }
serde_yml = "=0.0.13"
tokio = { version = "1", features = ["full"] }
tokio-stream = { version = "0.1", features = ["net"] }
tonic = "0.13"
tracing = "0.1"
tracing-subscriber = { version = "0.3", features = ["env-filter"] }
url = "=2.5.8"
walkdir = "=2.5.0"
yaml_serde = "=0.10.7"
