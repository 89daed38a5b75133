[package]
name = "ghmd"
version = "0.1.0"
edition = "2021"
publish = false

[dependencies]
anyhow = "=1.0.104"
async-stream = "=0.3.6"
clap = { version = "=3.2.25", features = ["derive"] }
fn-error-context = "=0.2.1"
hyper = { version = "=0.14.32", features = ["server", "http1", "http2", "tcp", "stream"] }
log = "=0.4.34"
notify = "=5.2.0"
once_cell = "=1.21.4"
pretty_env_logger = "=0.4.0"
reqwest = { version = "=0.11.27", features = ["json"] }
scraper = { version = "=0.19.1", features = ["deterministic"] }
serde = { version = "=1.0.229", features = ["derive"] }
serde_json = "=1.0.154"
sha2 = "=0.10.9"
structopt = "=0.3.26"
tera = "=1.20.1"
tokio = { version = "=1.54.1", features = ["full"] }
