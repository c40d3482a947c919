[package]
name = "startpage"
version = "0.1.0"
edition = "2021"
publish = false

[dependencies]
urlencoding = "*"
wasm-bindgen = "*"
web-sys = { version = "*", features = ["Window", "Storage", "Location"] }
log = "*"
console_log = "*"
console_error_panic_hook = "*"

[dev-dependencies]
serde_json = "*"
