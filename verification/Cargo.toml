[package]
name = "google_bigquery_v2"
version = "0.1.0"
edition = "2021"
publish = false

[dependencies]
google-bigquery2 = "=7.0.0"
serde_json = "=1.0.151"
chrono = "=0.4.45"
yup-oauth2 = { version = "=12.1.2", default-features = false, features = ["service-account", "hyper-rustls", "ring"] }
