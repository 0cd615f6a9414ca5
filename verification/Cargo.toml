[package]
name = "document_manager"
version = "0.1.0"
edition = "2021"
publish = false

[dependencies]
uuid = { version = "=1.29.1", features = ["v4", "serde"] }
base64 = "=0.22.1"
mime_guess = "=2.0.5"
itertools = "=0.12.1"
actix-web = "=4.18.1"
actix-multipart = "=0.6.2"
actix-files = "=0.6.10"
actix-web-lab = "=0.20.2"
serde = { version = "=1.0.229", features = ["derive"] }
chrono = "=0.4.45"
color-eyre = "=0.6.5"
diesel = { version = "=2.1.6", default-features = false, features = ["postgres_backend", "uuid", "chrono"] }
diesel-async = { version = "=0.4.1", features = ["postgres", "deadpool"] }
env_logger = "=0.11.11"
log = "=0.4.35"
reqwest = { version = "=0.11.27", default-features = false }
tokio = { version = "=1.54.1", features = ["fs", "io-util"] }
bytes = "=1.12.1"
utoipa = { version = "=4.2.3", features = ["actix_extras", "uuid"] }
utoipa-swagger-ui = { version = "=6.0.0", features = ["actix-web"] }
