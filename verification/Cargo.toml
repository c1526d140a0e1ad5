[package]
name = "arrow_odbc"
version = "0.1.0"
edition = "2021"
publish = false

[dependencies]
arrow = { version = "=60.0.0", default-features = false }
odbc-api = { version = "=29.2.0", default-features = false, features = ["odbc_version_3_80", "vendored-unix-odbc"] }
log = "=0.4.34"
thiserror = "=2.0.21"
