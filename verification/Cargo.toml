[package]
name = "libcontainer"
version = "0.1.0"
edition = "2021"
publish = false

[dependencies]
libc = "0.2"
nix = { version = "*", features = ["mount", "sched", "user", "hostname", "process", "fs"] }
oci-spec = "*"
serde = { version = "1", features = ["derive"] }
serde_json = "1"
