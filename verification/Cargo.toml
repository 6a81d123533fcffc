[package]
name = "story_zone"
version = "0.1.0"
edition = "2021"
publish = false

[dependencies]
anyhow = "=1.0.104"
serde = { version = "=1.0.229", features = ["derive"] }
url = "=2.5.8"
web-sys = { version = "=0.3.106", features = ["Document", "Element", "KeyboardEvent", "MouseEvent", "Node", "Window"] }
yew = "=0.18.0"
