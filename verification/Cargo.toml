[package]
name = "cosmic_randr"
version = "0.1.0"
edition = "2021"
publish = false

[dependencies]
clap = { version = "*", features = ["derive"] }
cosmic-protocols = "*"
fomat-macros = "*"
kdl = "*"
nu-ansi-term = "*"
thiserror = "*"
tokio = { version = "*", features = ["rt", "macros", "io-std", "io-util", "net", "sync", "time"] }
tracing = "*"
wayland-client = "*"
wayland-protocols-wlr = { version = "*", features = ["client"] }
