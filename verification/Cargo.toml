[package]
name = "ruche"
version = "0.1.0"
edition = "2021"
publish = false

[dependencies]
urlencoding = "2"
bigdecimal = "*"
chrono = { version = "0.4", default-features = false, features = ["clock", "std"] }
futures = "0.3"
riven = "*"
sqlx = { version = "*", default-features = false, features = ["postgres", "runtime-tokio", "bigdecimal", "chrono", "derive"] }
tokio = { version = "1", features = ["rt", "time", "sync"] }
