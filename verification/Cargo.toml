[package]
name = "etwin"
version = "0.1.0"
edition = "2021"
publish = false

[dependencies]
regex = "=1.13.1"
md-5 = "=0.10.6"
serde = { version = "=1.0.229", features = ["derive"] }
serde_json = { version = "=1.0.154", features = ["raw_value"] }
tokio = { version = "=1.54.1", features = ["sync", "time", "rt", "macros"] }
async-trait = "=0.1.92"
futures = "=0.3.34"
thiserror = "=1.0.69"
chrono = "=0.4.45"
once_cell = "=1.21.4"
itertools = "=0.10.5"
reqwest = { version = "=0.11.27", default-features = false, features = ["cookies"] }
sqlx = { version = "=0.6.3", default-features = false, features = ["postgres", "runtime-tokio-rustls", "macros", "chrono"] }
scraper = "*"
