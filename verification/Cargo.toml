[package]
name = "audio_pipeline"
version = "0.1.0"
edition = "2021"
publish = false

[dependencies]
threepm = "*"
bytemuck = "*"
log = "*"
embedded-sdmmc = "*"
embedded-hal-bus = "*"
embassy-executor = "*"
esp-hal = "*"
esp-hal-embassy = "*"
esp-println = "*"
esp-bootloader-esp-idf = "*"
