[package]
name = "rag_pipeline"
version = "0.1.0"
edition = "2021"
publish = false

[dependencies]
serde_json = "1"
log = "0.4"
tokio = { version = "1", features = ["macros", "rt"] }
openai-flows = "*"
vector-store-flows = "*"
webhook-flows = "*"
flowsnet-platform-sdk = "*"
