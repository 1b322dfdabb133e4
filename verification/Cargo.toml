[package]
name = "tolliver"
version = "0.1.0"
edition = "2021"
publish = false

[dependencies]
log = "0.4"
prost = "0.13"
protobuf = "3"
protobuf-parse = "3"
rusqlite = "*"
