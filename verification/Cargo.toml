[package]
name = "llamacpp_manager"
version = "0.1.0"
edition = "2021"
publish = false

[dependencies]
anyhow = "1"
chrono = { version = "0.4", default-features = false, features = ["clock", "std"] }
directories = "5"
libc = "0.2"
log = "0.4"
serde = { version = "1", features = ["derive"] }
serde_json = "1"
shlex = "1.3"
ureq = "3"
zip = { version = "2", default-features = false, features = ["deflate"] }
