[package]
name = "ninoverse"
version = "0.1.0"
edition = "2021"
publish = false

[dependencies]
actix-web = { version = "=4.18.1", default-features = false, features = ["macros"] }
bollard = "=0.21.1"
chrono = "=0.4.45"
config = { version = "=0.15.27", default-features = false, features = ["yaml"] }
futures = "=0.3.34"
futures-util = "=0.3.34"
garde = { version = "=0.22.1", features = ["derive"] }
http = "=1.5.0"
rdkafka = { version = "=0.39.0", default-features = false, features = ["tokio"] }
reqwest = { version = "=0.12.28", default-features = false }
serde = { version = "=1.0.229", features = ["derive"] }
serde_json = "=1.0.154"
serde_yaml = "=0.9.34"
shlex = "=1.3.0"
sqlx = { version = "=0.8.6", default-features = false, features = ["postgres", "runtime-tokio", "migrate"] }
thiserror = "=2.0.21"
tokio = { version = "=1.54.1", features = ["full"] }
