[package]
name = "port_scanner"
version = "0.1.0"
edition = "2021"
publish = false

[dependencies]
cidr = "*"
colored = "*"
regex = "*"
tokio = { version = "1", features = ["macros", "net", "rt-multi-thread", "time"] }
