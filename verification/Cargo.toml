[package]
name = "md2pdf"
version = "0.1.0"
edition = "2021"
publish = false

[dependencies]
anyhow = "=1.0.104"
clap = { version = "=4.6.7", default-features = false, features = ["std", "derive", "help", "usage", "error-context"] }
clap_complete = "=4.6.11"
clap_mangen = "=0.2.33"
comrak = { version = "=0.59.0", default-features = false }
docx-rs = "=0.4.22"
image = { version = "=0.25.10", default-features = false }
serde = { version = "=1.0.229", features = ["derive"] }
toml = { version = "=0.9.12", default-features = false, features = ["std", "serde", "parse"] }
typst = "=0.14.2"
typst-as-lib = { version = "=0.15.5", default-features = false, features = ["typst-kit-fonts", "typst-kit-embed-fonts"] }
typst-pdf = "=0.14.2"

[dev-dependencies]
zip = { version = "=8.6.0", default-features = false, features = ["deflate"] }
