[package]
name = "prompt_scaler"
version = "0.1.0"
edition = "2021"
publish = false

[dependencies]
anyhow = "=1.0.104"
async-openai = { version = "=0.42.2", features = ["byot", "chat-completion"] }
async-trait = "=0.1.92"
base64 = "=0.22.1"
clap = { version = "=4.6.7", features = ["derive"] }
csv-async = { version = "=1.3.1", features = ["tokio"] }
dotenvy = "=0.15.7"
futures = "=0.3.34"
genai = "=0.3.5"
handlebars = "=6.4.4"
handlebars-concat = "=0.3.0"
indicatif = { version = "=0.18.6", features = ["futures"] }
infer = "=0.22.0"
jsonschema = { version = "=0.60.1", default-features = false }
keen-retry = "=0.5.3"
leaky-bucket = "=1.1.2"
mime_guess = "=2.0.5"
num_cpus = "=1.17.0"
peekable = { version = "=0.6.2", features = ["tokio"] }
reqwest = { version = "=0.12.28", default-features = false, features = ["json", "rustls-tls"] }
schemars = "=0.8.22"
serde = { version = "=1.0.229", features = ["derive"] }
serde_json = { version = "=1.0.154", features = ["preserve_order"] }
tempfile = "=3.27.0"
tokio = { version = "=1.54.1", features = ["full"] }
tokio-stream = { version = "=0.1.19", features = ["io-util"] }
toml = "=1.1.8"
toml-span = "=0.7.2"
tracing = "=0.1.44"
tracing-subscriber = { version = "=0.3.23", features = ["env-filter"] }
