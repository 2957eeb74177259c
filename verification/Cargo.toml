[package]
name = "spotify_blog"
version = "0.1.0"
edition = "2021"
publish = false

[dependencies]
tokio = { version = "*", features = ["full"] }
libp2p = { version = "*", default-features = false, features = ["tokio", "tcp", "mdns", "noise", "yamux", "macros", "floodsub", "ed25519"] }
futures = "*"
dialoguer = "*"
log = "*"
pretty_env_logger = "*"

[dev-dependencies]
serde_json = "*"
