[package]
name = "syn-file-expand"
version = "0.3.0"
edition = "2021"
publish = false

[dependencies]
gumdrop = "0.8"
im-rc = "15"
itertools = "0.10"
proc-macro2 = "1"
quote = "1"
syn = { version = "2", features = ["full", "extra-traits"] }
thiserror = "1"
