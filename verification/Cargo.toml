[package]
name = "tamil_flashcards"
version = "0.1.0"
edition = "2021"
publish = false

[dependencies]
leptos = { version = "0.8", features = ["csr"] }
js-sys = "0.3"
serde = { version = "1", features = ["derive"] }
serde_json = "1"
