[package]
name = "boom"
version = "0.1.0"
edition = "2021"
publish = false

[dependencies]
actix-web = { version = "4", default-features = false, features = ["macros"] }
apache-avro = { version = "*", default-features = false }
async-channel = "2"
base64 = "0.22"
cdshealpix = "*"
chrono = { version = "0.4", default-features = false, features = ["clock", "std"] }
clap = { version = "4", features = ["derive"] }
flare = "*"
futures = "0.3"
indicatif = "*"
mongodb = "3"
opentelemetry = { version = "*", default-features = false, features = ["metrics"] }
rdkafka = "*"
reqwest = { version = "0.12", default-features = false, features = ["json"] }
serde = { version = "1", features = ["derive"] }
serde_json = "1"
thiserror = "2"
tokio = { version = "1", features = ["rt-multi-thread", "macros", "sync", "time"] }
tracing = "0.1"
tracing-subscriber = "0.3"
