[package]
name = "upc"
version = "0.9.0"
edition = "2021"
publish = false

[dependencies]
bytes = "1"
clap = { version = "4", features = ["derive"] }
futures = "0.3"
js-sys = "0.3"
nusb = { version = "0.2", features = ["tokio"] }
rusb = "0.9"
tokio = { version = "1", features = ["rt", "rt-multi-thread", "sync", "time", "macros", "io-std", "io-util"] }
tracing = "0.1"
tracing-log = "0.2"
tracing-subscriber = { version = "0.3", features = ["env-filter"] }
usb-gadget = { version = "*", features = ["tokio"] }
uuid = "1"
wasm-bindgen = "0.2"
wasm-bindgen-futures = "0.4"
web-sys = { version = "0.3", features = ["Window", "WorkerGlobalScope"] }
webusb-web = "*"
