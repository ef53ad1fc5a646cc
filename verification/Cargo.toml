[package]
name = "zine"
version = "0.1.0"
edition = "2021"
publish = false

[dependencies]
anyhow = "=1.0.104"
html5ever = "=0.39.0"
lol_html = "=3.0.1"
markup5ever_rcdom = "=0.39.0"
notify = "=8.2.0"
serde = { version = "=1.0.229", features = ["derive"] }
serde_json = "=1.0.151"
tera = "=2.4.0"
tokio = { version = "=1.53.2", features = ["rt-multi-thread", "macros", "signal"] }
toml = "=1.1.7"
