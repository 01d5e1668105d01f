[package]
name = "wittgensteinsourcerer"
version = "0.1.0"
edition = "2021"
publish = false

[dependencies]
anyhow = "1"
clap = { version = "4", features = ["derive"] }
futures = "0.3"
image = { version = "0.25", default-features = false, features = ["png", "jpeg"] }
printpdf = { version = "0.7", default-features = false }
reqwest = { version = "0.12", default-features = false }
scraper = "0.29"
tokio = { version = "1", features = ["macros", "rt-multi-thread", "fs"] }
webp = { version = "0.3", default-features = false }
