[package]
name = "sso_core"
version = "0.1.0"
edition = "2021"
publish = false

[dependencies]
argon2rs = "=0.2.5"
chrono = "=0.4.45"
dotenv = "=0.15.0"
hex = "=0.4.3"
hmac-sha1 = "=0.2.2"
jsonwebtoken = "=9.3.1"
postgres = "=0.19.14"
r2d2 = "=0.8.10"
r2d2_postgres = "=0.18.2"
rand = "=0.10.3"
redis = "=1.8.0"
rocket = { version = "=0.5.2", features = ["json"] }
rocket_dyn_templates = { version = "0.2", features = ["handlebars"] }
serde = { version = "=1.0.229", features = ["derive"] }
serde_json = "=1.0.154"
toml = "=0.8.23"
uuid = { version = "=1.29.0", features = ["v4"] }
