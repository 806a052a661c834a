[package]
name = "zenzai_portal"
version = "0.1.0"
edition = "2021"
publish = false

[dependencies]
csscolorparser = "*"
rand = "*"
rust-ini = "*"
serde = { version = "*", features = ["derive"] }
tokio = { version = "*", features = ["macros", "rt-multi-thread", "process", "io-util"] }
toml = "*"
tracing = "*"
tracing-subscriber = "*"
which = "*"
zbus = { version = "*", features = ["tokio"] }
zvariant = "*"
