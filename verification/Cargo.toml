[package]
name = "enciclopedia"
version = "0.1.0"
edition = "2021"
publish = false

[dependencies]
elements = { version = "*", features = ["serde"] }
indexmap = { version = "2", features = ["serde"] }
serde = { version = "1", features = ["derive"] }
serde_json = "1"
gloo = { version = "*", default-features = false, features = ["console", "storage"] }
gloo-storage = "*"
lazy_static = "1"
reqwest = { version = "*", default-features = false, features = ["json"] }
wasm-bindgen = "0.2"
wasm-bindgen-futures = "0.4"
web-sys = { version = "0.3", features = ["EventTarget", "HtmlElement", "HtmlInputElement", "KeyboardEvent", "MouseEvent"] }
yew = { version = "*", features = ["csr"] }
