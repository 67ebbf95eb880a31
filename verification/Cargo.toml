[package]
name = "cereal"
version = "0.1.0"
edition = "2021"
publish = false

[dependencies]
addr = "=0.15.6"
anyhow = "1"
chrono = "=0.4.45"
diesel = { version = "=1.4.8", features = ["postgres", "uuidv07", "chrono", "serde_json"] }
diesel_migrations = "1.4"
futures = "0.3"
mailparse = "=0.18.0"
mobc = "=0.7.3"
rand = "=0.8.8"
reqwest = { version = "=0.11.27", default-features = false, features = ["json", "multipart", "cookies", "rustls-tls"] }
rss = "=2.1.2"
rusoto_core = { version = "=0.48.0", default-features = false, features = ["rustls"] }
rusoto_s3 = { version = "=0.48.0", default-features = false, features = ["rustls"] }
scraper = "=0.29.0"
serde = { version = "1", features = ["derive"] }
serde_json = "1"
tokio = { version = "1", features = ["full"] }
tracing = "0.1"
url = "=2.5.8"
uuid = { version = "=0.8.2", features = ["v4", "serde"] }
warp = "=0.3.7"
