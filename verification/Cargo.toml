[package]
name = "pgb1"
version = "0.1.0"
edition = "2021"
publish = false

[dependencies]
rand = { version = "0.8", features = ["small_rng"] }
cortex-m = "0.7"
cortex-m-rt = "0.7"
critical-section = "1"
display-interface-spi = "0.4"
embedded-hal = "1.0"
fugit = "0.3"
rp2040-boot2 = "0.3"
rp2040-hal = { version = "0.10", features = ["critical-section-impl", "rt"] }
ssd1306 = "0.8"
ws2812-pio = "0.8"
embedded-graphics = "0.8"
