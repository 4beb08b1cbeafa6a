[package]
name = "cqrs"
version = "0.1.0"
edition = "2021"
publish = false

[dependencies]
void = "1"
async-trait = "0.1"

[dev-dependencies]
fnv = "1"
