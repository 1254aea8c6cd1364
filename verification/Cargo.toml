[package]
name = "hibi2"
version = "0.1.0"
edition = "2021"
publish = false

[dependencies]
chrono = "=0.4.45"
clap = "=4.6.7"
diesel = { version = "=2.3.13", features = ["postgres", "chrono"] }
dotenv = "=0.15.0"
