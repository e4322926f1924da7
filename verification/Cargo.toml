[package]
name = "hamster_auth"
version = "0.1.0"
edition = "2021"
publish = false

[dependencies]
actix-web = { version = "=4.15.0", features = ["secure-cookies"] }
bcrypt = "=0.19.3"
rand = "=0.10.3"
r2d2 = "=0.8.10"
diesel = { version = "=1.4.8", features = ["postgres", "r2d2"] }
serde = { version = "=1.0.229", features = ["derive"] }
serde_json = "=1.0.151"
toml = "=1.1.7"
uuid = { version = "=1.27.0", features = ["v4"] }
