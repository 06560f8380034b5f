[package]
name = "rs-smarttcp"
version = "0.2.0"
edition = "2021"
publish = false

[dependencies]
chacha20poly1305 = "=0.11.0"
rand = "=0.10.3"
rcgen = { version = "=0.14.10", features = ["x509-parser"] }
ring = "=0.17.14"
