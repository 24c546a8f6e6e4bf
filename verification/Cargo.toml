[package]
name = "obligation"
version = "0.1.0"
edition = "2021"
publish = false

[dependencies]
anchor-lang = "0.29.0"
bytemuck = { version = "1.13", features = ["derive", "min_const_generics"] }
derivative = "2.2.0"
fixed = "1.23.1"
static_assertions = "1.1.0"
