[package]
name = "priority_executor"
version = "0.1.0"
edition = "2021"
publish = false

[dependencies]
futures = "0.3"
parking_lot = "0.12"
sorted-channel = "*"
