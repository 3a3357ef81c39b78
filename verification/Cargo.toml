[package]
name = "case_scraper"
version = "0.1.0"
edition = "2021"
publish = false

[dependencies]
csv = "*"
scraper = "*"
serde = { version = "*", features = ["derive"] }
thirtyfour = "*"
tokio = { version = "*", features = ["rt-multi-thread", "macros"] }
