[package]
name = "inspect"
version = "0.1.0"
edition = "2021"
publish = false

[dependencies]
axum = "0.8"
base64 = "=0.22.1"
chrono = { version = "0.4", features = ["serde"] }
clap = { version = "4", features = ["derive"] }
colored = "2"
futures = "0.3"
reqwest = { version = "0.12", default-features = false, features = ["json", "rustls-tls"] }
rmcp = { version = "1.5", features = ["server", "macros", "transport-io"] }
schemars = "1"
sem-core = { version = "=0.28.1", default-features = false, features = ["git", "parallel", "mmap", "grammar-core", "lang-c", "lang-cpp", "lang-ruby", "lang-csharp", "lang-php"] }
serde = { version = "1", features = ["derive"] }
serde_json = "=1.0.154"
thiserror = "2"
tokio = { version = "1", features = ["full"] }
tower-http = { version = "0.6", features = ["cors", "trace"] }
tracing = "0.1"
tracing-subscriber = { version = "0.3", features = ["env-filter"] }
urlencoding = "=2.1.3"
uuid = { version = "1", features = ["v4"] }
