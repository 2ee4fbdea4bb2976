[package]
name = "focus_space_wallpaper"
version = "0.1.0"
edition = "2021"
publish = false

[dependencies]
anyhow = "1"
clap = { version = "4", features = ["derive"] }
directories = "5"
image = { version = "0.25", default-features = false, features = ["png"] }
noise = "0.9"
rand = "0.8"
rand_chacha = "0.3"
rayon = "1.10"
rdev = "0.5"
serde = { version = "1", features = ["derive"] }
tokio = { version = "1", features = ["rt-multi-thread", "macros", "time", "signal", "sync"] }
toml = "0.8"
tracing = "0.1"
tracing-subscriber = { version = "0.3", features = ["env-filter", "fmt"] }
