[package]
name = "recipe_view"
version = "0.1.0"
edition = "2021"
publish = false

[dependencies]
axum = "0.6"
axum-extra = { version = "0.7", features = ["cookie"] }
bb8 = "0.8"
bb8-postgres = "0.8"
chrono = { version = "0.4", features = ["serde"] }
dotenvy = "0.15"
http = "0.2"
hyper = "0.14"
native-tls = "0.2"
postgres-native-tls = "0.5"
serde = { version = "1", features = ["derive"] }
tokio = { version = "1", features = ["full"] }
tokio-postgres = { version = "0.7", features = ["with-chrono-0_4"] }
tower-http = { version = "0.4", features = ["trace"] }
tower-request-id = "0.2"
tracing = "0.1"
tracing-subscriber = "0.3"
