[package]
name = "shex2linkml"
version = "0.1.0"
edition = "2021"
publish = false

[dependencies]
anyhow = "=1.0.104"
clap = { version = "=4.6.7", features = ["derive"] }
iri_s = "=0.1.117"
prefixmap = ">=0.1.104, <=0.1.117"
rbe = ">=0.1.111, <=0.1.117"
serde = { version = "=1.0.229", features = ["derive"] }
serde_json = { version = "=1.0.154", features = ["preserve_order"] }
serde_yaml = "=0.9.34"
shapemap = ">=0.1.106, <=0.1.117"
shex_ast = "=0.1.117"
shex_compact = "=0.1.117"
srdf = ">=0.1.111, <=0.1.117"

[dev-dependencies]
url = "=2.5.8"
