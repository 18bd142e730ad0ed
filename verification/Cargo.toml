[package]
name = "remote_log"
version = "0.1.0"
edition = "2021"
publish = false

[dependencies]
chrono = "0.4"
dns-lookup = "*"
flexi_logger = "*"
log = "0.4"
