[package]
name = "nss_keycloak"
version = "0.1.0"
edition = "2021"
publish = false

[dependencies]
serde = { version = "*", features = ["derive"] }
serde_json = "*"
toml = "*"
reqwest = { version = "*", default-features = false, features = ["blocking", "json", "query", "form"] }
clap = { version = "*", features = ["derive"] }
libc = "*"
libnss = "*"
pamsm = { version = "*", features = ["libpam"] }
copy_dir = "*"
walkdir = "*"
