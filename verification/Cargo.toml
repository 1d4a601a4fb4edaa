[package]
name = "threejs_bindgen"
version = "0.1.0"
edition = "2021"
publish = false

[dependencies]
Inflector = "*"
clap = "2"
serde = { version = "1", features = ["derive"] }
serde_yaml = "*"
swc_common = "*"
swc_ecma_ast = "*"
swc_ecma_parser = "*"
