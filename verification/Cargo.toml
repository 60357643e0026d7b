[package]
name = "shutter_tester"
version = "0.1.0"
edition = "2021"
publish = false

[dependencies]
heapless = "0.8"
infinity-sampler = "*"
fugit = "0.3"
embedded-graphics = "0.8"
u8g2-fonts = { version = "0.4", features = ["embedded_graphics_textstyle"] }
eg-seven-segment = "0.2"
embedded-graphics-framebuf = "0.5"
tinybmp = "0.5"
embedded-text = "0.7"
ufmt = "0.2"
micromath = "2"
enum_dispatch = "0.3"
cortex-m = "0.7"
cortex-m-microclock = "*"
rtic-monotonics = { version = "1", features = ["cortex-m-systick"] }
