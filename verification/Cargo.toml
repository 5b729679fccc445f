[package]
name = "sobel_edge"
version = "0.1.0"
edition = "2021"
publish = false

[dependencies]
image = "*"
wasm-bindgen = "*"
js-sys = "*"
web-sys = { version = "*", features = ["CanvasRenderingContext2d", "HtmlCanvasElement", "ImageData"] }
console_error_panic_hook = "*"
