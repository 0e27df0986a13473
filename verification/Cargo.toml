[package]
name = "acpi_madt"
version = "0.1.0"
edition = "2021"
publish = false

[dependencies]
fixedvec = "=0.2.4"
x86_64 = { version = "=0.15.5", default-features = false }
