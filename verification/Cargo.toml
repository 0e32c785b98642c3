[package]
name = "installer"
version = "0.1.0"
edition = "2021"
publish = false

[dependencies]
get_if_addrs = "*"
mac_address = "*"
os_info = "*"
platforms = "*"
url = "*"
version-compare = "*"
reqwest = { version = "*", default-features = false, features = ["blocking", "json"] }
serde = { version = "*", features = ["derive"] }
serde_derive = "*"
serde_json = "*"
toml = "*"
structopt = "*"
prettytable-rs = "*"
indicatif = "*"
zip = { version = "*", default-features = false, features = ["deflate"] }
