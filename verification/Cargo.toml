[package]
name = "telescope"
version = "0.1.0"
edition = "2021"
publish = false

[dependencies]
actix = "0.10"
actix-files = "0.5"
actix-identity = "0.3"
actix-web = { version = "3.3", default-features = false }
chrono = { version = "0.4", features = ["serde"] }
derive_more = "0.99"
futures = "0.3"
graphql_client = "0.9"
handlebars = "3.5"
lazy_static = "1.4"
lettre = { version = "0.9", default-features = false, features = ["file-transport", "smtp-transport"] }
log = "0.4"
rand = "0.8"
reqwest = { version = "0.10", default-features = false, features = ["json"] }
serde = { version = "1", features = ["derive"] }
serde_json = "1"
time = "0.2"
uuid = { version = "1", features = ["serde"] }
