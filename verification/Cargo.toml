[package]
name = "imxrt_enet"
version = "0.1.0"
edition = "2021"
publish = false

[dependencies]
imxrt-ral = { version = "=0.6.2", features = ["imxrt1176_cm7"] }
mdio = "=0.1.2"
smoltcp = "=0.14.0"
