[package]
name = "dcf_simulator"
version = "0.1.0"
edition = "2021"
publish = false

[dependencies]
meval = "=0.2.0"
ode_solvers = "=0.6.2"
eframe = { version = "=0.37.0", default-features = false, features = ["glow", "default_fonts", "x11"] }
egui_extras = "=0.37.0"
egui_plot = "=0.38.0"
futures = "=0.3.34"
log = "=0.4.34"
rfd = { version = "=0.17.2", default-features = false, features = ["xdg-portal"] }
serde = { version = "=1.0.229", features = ["derive"] }
serde_json = "=1.0.154"
wasm-bindgen = "=0.2.129"
wasm-bindgen-futures = "=0.4.79"
web-sys = { version = "=0.3.106", features = ["Document", "Element", "HtmlCanvasElement", "Window"] }
