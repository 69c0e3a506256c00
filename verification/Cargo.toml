[package]
name = "lever"
version = "0.1.0"
edition = "2021"
publish = false

[dependencies]
async-graphql = { version = "7", features = ["uuid", "chrono"] }
async-graphql-warp = "7"
async-trait = "0.1"
chrono = { version = "0.4", features = ["serde"] }
indoc = "2"
serde = { version = "1", features = ["derive"] }
serde_json = "1"
sqlx = { version = "0.8", default-features = false, features = ["postgres", "runtime-tokio", "derive", "uuid", "chrono", "json"] }
structopt = "0.3"
thiserror = "1"
tokio = { version = "1", features = ["macros", "rt-multi-thread"] }
tokio-stream = "0.1"
uuid = { version = "1", features = ["v4", "serde"] }
warp = "0.3"
