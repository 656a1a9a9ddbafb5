[package]
name = "qualia_hello_world"
version = "0.1.0"
edition = "2021"
publish = false

[dependencies]
embedded-hal = "1.0.0"
esp-idf-hal = "*"
esp-idf-svc = "*"
esp-idf-sys = "*"
log = "0.4"
port-expander = "*"
