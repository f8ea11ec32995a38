[package]
name = "chemquiz"
version = "0.1.0"
edition = "2021"
publish = false

[dependencies]
rand = "0.9"
serde = { version = "=1.0.229", features = ["derive"] }
serde_json = "=1.0.154"
thiserror = "=1.0.69"
leptos = { version = "=0.6.15", features = ["csr"] }
gloo-net = "=0.6.0"
wasm-bindgen = "=0.2.129"
web-sys = { version = "=0.3.106", features = ["Document", "Window", "Element", "HtmlElement", "HtmlDivElement", "HtmlCanvasElement"] }
js-sys = "=0.3.106"
console_error_panic_hook = "=0.1.7"
