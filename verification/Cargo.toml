[package]
name = "cms_dl"
version = "0.1.0"
edition = "2021"
publish = false

[dependencies]
scraper = "*"
regex = "*"
html-escape = "*"
serde_json = "*"
serde = { version = "*", features = ["derive"] }
toml = "*"
anyhow = "*"
thiserror = "*"
clap = { version = "*", features = ["derive"] }
dialoguer = "*"
indicatif = "*"
curl = "*"
reqwest = { version = "*", default-features = false, features = ["blocking"] }
flate2 = "*"
tar = "*"
zip = { version = "*", default-features = false, features = ["deflate"] }
tokio = { version = "*", features = ["process", "rt"] }
futures = "*"
