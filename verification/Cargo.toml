[package]
name = "jet"
version = "0.1.0"
edition = "2021"
publish = false

[dependencies]
chrono = { version = "0.4", features = ["serde"] }
markdown = "*"
markdown-frontmatter = "*"
minijinja = "2"
serde = { version = "1", features = ["derive"] }
toml = "*"
url = "2"
rss = "2"
clap = { version = "4", features = ["derive"] }
axum = "*"
tokio = { version = "1", features = ["macros", "rt-multi-thread", "net"] }
tower-http = { version = "*", features = ["fs"] }
