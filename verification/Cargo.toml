[package]
name = "stack_analyzer"
version = "0.1.0"
edition = "2021"
publish = false

[dependencies]
gimli = "=0.31.1"
object = "=0.36.7"
regex = "=1.13.1"
clap = { version = "=4.6.7", features = ["derive"] }

[dev-dependencies]
object = { version = "=0.36.7", features = ["write"] }
