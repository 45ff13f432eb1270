[package]
name = "i2c_wasm_components"
version = "0.1.0"
edition = "2021"
publish = false

[dependencies]
anyhow = "=1.0.104"
chrono = "=0.4.45"
embedded-hal = "=0.2.7"
hts221 = "=0.3.0"
linux-embedded-hal = "=0.3.2"
hd44780-driver = "=0.4.0"
rppal = { version = "=0.22.1", features = ["hal"] }
