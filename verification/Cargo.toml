[package]
name = "recsys_prep"
version = "0.1.0"
edition = "2021"
publish = false

[dependencies]
anyhow = "1"
csv = "1"
diesel = { version = "1.4", features = ["sqlite"] }
dotenv = "0.15"
indicatif = "0.15"
itertools = "0.10"
lazy_static = "1"
log = "0.4"
paste = "1"
pretty_env_logger = "0.4"
regex = "1"
seq-macro = "0.2"
serde = { version = "1", features = ["derive"] }
serde_json = "1"
structopt = "0.3"
tokio = { version = "0.2", features = ["full"] }
zip = "0.5"
