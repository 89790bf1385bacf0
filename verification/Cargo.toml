[package]
name = "whispering_recorder"
version = "0.1.0"
edition = "2021"
publish = false

[dependencies]
cpal = "=0.15.3"
hound = "=3.5.1"
lazy_static = "=1.5.1"
serde = { version = "1", features = ["derive"] }
thiserror = "=1.0.69"
tracing = "=0.1.44"
voice_activity_detector = "=0.2.1"
