[package]
name = "rusty_sample_player"
version = "0.1.0"
edition = "2021"
publish = false

[dependencies]
cpal = "0.13"
itertools = "0.10"
log = "0.4"
midly = "0.5"
ringbuf = "0.2"
rubato = "0.12"
serde = { version = "1", features = ["derive"] }
serde_json = "1"
tracing = "0.1"
tracing-subscriber = "0.3"
wav = "1"
