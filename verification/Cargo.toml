[package]
name = "lang"
version = "0.1.0"
edition = "2021"
publish = false

[dependencies]
clap = { version = "=4.6.7", features = ["derive"] }
cranelift-codegen = "=0.132.3"
cranelift-frontend = "=0.132.3"
cranelift-module = "=0.132.3"
cranelift-native = "=0.132.3"
cranelift-object = "=0.132.3"
tempfile = "=3.27.0"
which = "=8.0.6"
futures = { version = "=0.3.34", features = ["thread-pool"] }
async-trait = "=0.1.92"
