[package]
name = "weight_backtest"
version = "0.1.0"
edition = "2021"
publish = false

[dependencies]
anyhow = "=1.0.104"
chrono = "=0.4.45"
indicatif = "=0.18.6"
polars = { version = "=0.49.1", features = ["lazy", "round_series", "abs", "strings", "temporal", "dtype-date", "dtype-datetime", "pivot", "cov"] }
polars-ops = { version = "=0.49.1", features = ["pivot"] }
pyo3 = "*"
pyo3-polars = "=0.22.0"
rayon = "=1.12.0"
serde = { version = "=1.0.229", features = ["derive"] }
serde_json = "=1.0.154"
thiserror = "=2.0.21"
