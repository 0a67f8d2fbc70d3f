[package]
name = "chatbot_core"
version = "0.1.0"
edition = "2021"
publish = false

[dependencies]
async-process = "=2.5.0"
color-eyre = "=0.6.5"
dotenvy = "=0.15.7"
futures-lite = "=2.6.1"
image = { version = "=0.25.10", default-features = false, features = ["bmp", "gif", "jpeg", "png", "webp"] }
itertools = "=0.15.0"
poise = "=0.6.2"
rand = "=0.9.5"
slice-of-array = "=0.3.2"
tempfile = "=3.27.0"
thiserror = "=2.0.21"
tokio = { version = "=1.54.1", features = ["macros", "rt-multi-thread", "time"] }
