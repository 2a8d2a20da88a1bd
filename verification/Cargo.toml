[package]
name = "clymene"
version = "0.1.0"
edition = "2021"
publish = false

[dependencies]
colored = "2"
directories = "*"
eyre = "0.6"
image = { version = "0.24", default-features = false, features = ["png"] }
num_cpus = "1"
rand = "0.8"
serde = { version = "1", features = ["derive"] }
serde_json = "1"
tree_decorator = "*"
