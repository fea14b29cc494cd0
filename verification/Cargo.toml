[package]
name = "hopen"
version = "0.1.0"
edition = "2021"
publish = false

[dependencies]
sysinfo = "=0.39.6"
anyhow = "=1.0.104"
clap = { version = "=4.6.7", features = ["derive"] }
colored = "=3.1.1"
ctrlc = "=3.5.2"
inquire = "=0.9.4"
open = "=5.4.4"
tokio = { version = "=1.53.2", features = ["macros", "rt-multi-thread", "time"] }
warp = { version = "=0.4.3", features = ["server"] }
