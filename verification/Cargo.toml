[package]
name = "wlprompt"
version = "0.1.0"
edition = "2021"
publish = false

[dependencies]
anyhow = "=1.0.104"
env_logger = "=0.11.11"
fontconfig = "=0.11.0"
fontdue = "=0.9.5"
log = { version = "=0.4.35", features = ["kv"] }
smithay-client-toolkit = "=0.20.0"
ttf-parser = { version = "=0.25.1", default-features = false, features = ["opentype-layout", "no-std-float"] }
wayland-client = "=0.31.15"
