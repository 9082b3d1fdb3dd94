[package]
name = "r3bl_terminal_async"
version = "0.1.0"
edition = "2021"
publish = false

[dependencies]
crossterm = { version = "=0.27.0", features = ["event-stream"] }
futures-channel = "=0.3.34"
futures-util = { version = "=0.3.34", features = ["io"] }
miette = "=7.6.0"
thingbuf = "=0.1.6"
thiserror = "=1.0.69"
tokio = { version = "=1.54.1", features = ["macros", "rt", "rt-multi-thread", "sync", "time"] }
unicode-segmentation = "=1.13.3"
unicode-width = "=0.1.14"

[dev-dependencies]
strip-ansi-escapes = "=0.2.1"
