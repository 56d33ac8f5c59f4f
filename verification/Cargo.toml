[package]
name = "shodan_client"
version = "0.1.0"
edition = "2021"
publish = false

[dependencies]
serde = "*"
serde_json = "*"
form_urlencoded = "*"
percent-encoding = "*"
reqwest = { version = "*", default-features = false }

[dev-dependencies]
url = "*"
