[package]
name = "predawn"
version = "0.1.0"
edition = "2021"
publish = false

[dependencies]
http = "=1.5.0"
mime = "=0.3.17"
syn = { version = "=2.0.119", features = ["full", "extra-traits"] }
quote = "=1.0.47"
proc-macro2 = "=1.0.107"
openapiv3 = "=2.2.0"
indexmap = "=2.14.2"
serde_json = "=1.0.154"
from-attr = "*"
bytes = "1"
http-body = "1"
http-body-util = "0.1"
