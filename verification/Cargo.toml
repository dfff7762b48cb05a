[package]
name = "jira_mcp_server"
version = "0.7.0"
edition = "2021"
publish = false

[dependencies]
anyhow = "=1.0.104"
async-trait = "=0.1.92"
base64 = "=0.22.1"
chrono = "=0.4.45"
gouqi = { version = "=0.20.0", default-features = false, features = ["async"] }
pulseengine-mcp-macros = "=0.16.0"
pulseengine-mcp-protocol = "=0.16.0"
pulseengine-mcp-server = "=0.16.0"
schemars = "=1.2.3"
serde = { version = "=1.0.229", features = ["derive"] }
serde_json = "=1.0.154"
time = { version = "=0.3.55", features = ["parsing", "formatting"] }
tokio = { version = "=1.54.1", features = ["full"] }
toml = "=1.1.8"
tracing = "=0.1.44"
