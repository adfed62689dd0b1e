[package]
name = "vitepress_pdf_export"
version = "0.1.0"
edition = "2021"
publish = false

[dependencies]
anyhow = "*"
clap = { version = "*", features = ["derive"] }
headless_chrome = { version = "*", features = ["fetch"] }
indexmap = { version = "*", features = ["serde"] }
indicatif = "*"
lopdf = "*"
reqwest = { version = "*", features = ["json"] }
serde = { version = "*", features = ["derive"] }
serde_json = "*"
tempfile = "*"
tokio = { version = "*", features = ["macros", "rt-multi-thread"] }
toml = "*"
