[package]
name = "entry"
version = "0.1.0"
edition = "2021"
publish = false

[dependencies]
chrono = "0.4"
confy = "0.4"
directories-next = "2"
exitfailure = "0.5"
failure = "0.1"
serde = { version = "1", features = ["derive"] }
serde_json = "1"
shellexpand = "2"
structopt = "0.3"

[dev-dependencies]
regex = "1"
