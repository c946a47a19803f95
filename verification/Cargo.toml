[package]
name = "gemlog_sync"
version = "0.1.0"
edition = "2021"
publish = false

[dependencies]
anyhow = "1"
atom_syndication = "*"
chrono = "0.4"
clap = { version = "4", features = ["derive"] }
germ = "*"
regex = "1"
tokio = { version = "1", features = ["macros", "rt-multi-thread"] }
url = "2"
writefreely_client = "*"
