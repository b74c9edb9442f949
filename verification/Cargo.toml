[package]
name = "ektoboat"
version = "0.1.0"
edition = "2021"
publish = false

[dependencies]
regex = "*"
chrono = "*"
rusqlite = { version = "*", features = ["bundled"] }
serde_json = "*"
zip = { version = "*", default-features = false, features = ["deflate"] }
id3 = "*"
select = "*"
tempfile = "*"
google-youtube3 = "*"
yup-oauth2 = "*"
hyper = "*"
hyper-rustls = "*"
hyper-util = "*"
http-body-util = "*"
tokio = { version = "*", features = ["rt", "macros", "net", "time"] }
