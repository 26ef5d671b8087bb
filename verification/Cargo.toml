[package]
name = "websockets"
version = "0.1.0"
edition = "2021"
publish = false

[dependencies]
async-mutex = "=1.4.1"
base64 = "=0.13.1"
futures = "=0.3.34"
rand = "=0.8.8"
rhymessage = "=1.3.1"
rhymuweb = "=1.2.1"
sha1 = "=0.6.1"
thiserror = "=1.0.69"
