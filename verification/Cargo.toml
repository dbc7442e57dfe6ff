[package]
name = "js_pdk"
version = "0.1.0"
edition = "2021"
publish = false

[dependencies]
wagen = "*"
anyhow = "*"
log = "*"
env_logger = "*"
structopt = "*"
tempfile = "*"
swc_common = "*"
swc_ecma_ast = "*"
swc_ecma_parser = "*"
wizer = { version = "*", default-features = false }
rquickjs = "*"
extism-pdk = "*"
chrono = "*"

[dev-dependencies]
wasmi = "*"
wasmparser = "*"
