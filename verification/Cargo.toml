[package]
name = "denpie_frontend"
version = "0.1.0"
edition = "2021"
publish = false

[dependencies]
base64 = "=0.22.1"
gloo-net = "=0.7.0"
gloo-storage = "=0.4.0"
js-sys = "=0.3.107"
serde = { version = "=1.0.229", features = ["derive"] }
serde_json = "=1.0.154"
web-sys = { version = "=0.3.107", features = ["Document", "DomTokenList", "Element", "HtmlElement", "Window"] }

[dev-dependencies]
prost = "=0.14.4"
