[package]
name = "acpi_tables"
version = "0.1.0"
edition = "2021"
publish = false

[dependencies]
zerocopy = "0.8"
serde = { version = "1", features = ["derive"] }
toml = "0.8"
