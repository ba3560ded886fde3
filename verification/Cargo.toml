[package]
name = "alphabet_game"
version = "0.1.0"
edition = "2021"
publish = false

[dependencies]
hangeul = "=0.4.0"
rustkorean = "=1.1.2"
tashkil = "=0.1.0"
rand = "=0.9.5"
serde = { version = "=1.0.229", features = ["derive"] }
leptos = { version = "=0.8.22", features = ["hydrate"] }
leptos_meta = { version = "=0.8.7" }
leptos_router = { version = "=0.8.17" }
wasm-bindgen = "=0.2.129"
web-sys = { version = "=0.3.106", features = ["Event", "EventTarget", "HtmlOptionElement", "HtmlSelectElement", "SpeechSynthesis", "SpeechSynthesisUtterance", "Window"] }
axum = { version = "=0.8.9", default-features = false }
leptos_axum = { version = "=0.8.9", default-features = false }
sqlx-d1 = { version = "=0.4.3", features = ["derive"] }
worker = { version = "=0.8.7", features = ["http", "axum", "d1"] }
