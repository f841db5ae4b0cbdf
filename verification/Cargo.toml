[package]
name = "prss"
version = "0.1.0"
edition = "2021"
publish = false

[dependencies]
anyhow = "*"
atom_syndication = "*"
chrono = "*"
futures = "*"
itertools = "*"
md5 = "*"
reqwest = { version = "*", default-features = false }
rss = "*"
termion = "1.5"
tokio = { version = "*", features = ["macros", "rt-multi-thread"] }
tui = { version = "*", default-features = false, features = ["termion"] }
xdg = "*"
