[package]
name = "cleaniit"
version = "0.1.0"
edition = "2021"
publish = false

[dependencies]
chrono = "0.4"
env_logger = "*"
log = "0.4"
main_error = "*"
structopt = "0.3"
tokio = { version = "1", features = ["macros", "rt-multi-thread", "process"] }
tokio-postgres = { version = "0.7", features = ["with-chrono-0_4"] }
