[package]
name = "rgb_led_matrix"
version = "0.1.0"
edition = "2021"
publish = false

[dependencies]
clap = { version = "4", features = ["derive"] }
cortex-m = "0.7"
cortex-m-rt = "0.7"
image = { version = "0.24", default-features = false, features = ["png", "jpeg", "gif", "bmp"] }
nrf52833-hal = "0.16"
