[package]
name = "b10x_mcp"
version = "0.1.2"
edition = "2021"
publish = false

[dependencies]
async-trait = "*"
clap = { version = "*", features = ["derive"] }
http = "*"
oauth2 = { version = "*", default-features = false }
reqwest = { version = "*", default-features = false }
rmcp = { version = "*", features = ["client", "auth", "transport-child-process", "transport-streamable-http-client-reqwest"] }
serde = { version = "1", features = ["derive"] }
serde_json = "1"
sha2 = "*"
thiserror = "*"
tokio = { version = "1", features = ["fs", "io-util", "macros", "net", "process", "rt-multi-thread", "time"] }
toml = "*"
url = "2"
zeroize = { version = "1", features = ["derive"] }
