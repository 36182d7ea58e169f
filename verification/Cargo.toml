[package]
name = "hibiki_stream"
version = "0.1.0"
edition = "2021"
publish = false

[dependencies]
anyhow = "1"
cpal = "0.15"
ctrlc = "3"
hound = "3.5"
rubato = "0.15"
tracing = "0.1"
