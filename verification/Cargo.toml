[package]
name = "yobatis"
version = "0.1.0"
edition = "2021"
publish = false

[dependencies]
clap = "2"
env_logger = "*"
log = "0.4"
minidom = "0.11"
mysql = "*"
regex = "1"
xml-rs = "0.8"
