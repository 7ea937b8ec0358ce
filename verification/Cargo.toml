[package]
name = "hammond"
version = "0.1.0"
edition = "2021"
publish = false

[dependencies]
ammonia = "*"
chrono = "0.4"
humansize = "1"
rfc822_sanitizer = "*"
rss = "*"
