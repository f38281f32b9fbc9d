[package]
name = "koenig_damico_planner"
version = "0.1.0"
edition = "2021"
publish = false

[dependencies]
nalgebra = "=0.35.0"
clarabel = "=0.11.1"
serde = { version = "=1.0.229", features = ["derive"] }
serde_json = "=1.0.154"
thiserror = "=2.0.21"
axum = "=0.8.9"
tokio = { version = "=1.54.1", features = ["macros", "rt-multi-thread", "net", "signal"] }
tower = { version = "=0.5.3", features = ["limit", "util"] }
tower-http = { version = "=0.7.1", features = ["cors", "trace", "limit", "timeout", "catch-panic"] }
tracing = "=0.1.44"
tracing-subscriber = { version = "=0.3.23", features = ["env-filter"] }
rand = "=0.10.3"
rand_distr = "=0.6.0"
wasm-bindgen = "=0.2.130"
console_error_panic_hook = "*"
