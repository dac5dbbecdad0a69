[package]
name = "nadou"
version = "0.1.0"
edition = "2021"
publish = false

[dependencies]
clap = { version = "*", features = ["derive"] }
config = "*"
dotenv = "*"
getopts = "*"
last-git-commit = "*"
rand = "*"
serde = { version = "*", features = ["derive"] }
sha256 = "*"
splines = "*"
