[package]
name = "xeedee_cli"
version = "0.1.0"
edition = "2021"
publish = false

[dependencies]
clap = { version = "4", features = ["derive", "env"] }
futures-io = "0.3"
futures-util = { version = "0.3", features = ["io"] }
image = { version = "0.25", default-features = false, features = ["png"] }
indicatif = "*"
jiff = "0.2"
owo-colors = "4"
rootcause = "*"
tabled = "*"
tokio = { version = "1", features = ["full"] }
tokio-util = { version = "0.7", features = ["compat"] }
tracing = "0.1"
tracing-subscriber = { version = "0.3", features = ["env-filter"] }
