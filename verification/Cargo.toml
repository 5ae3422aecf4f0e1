[package]
name = "bight_grid"
version = "0.1.0"
edition = "2021"
publish = false

[dependencies]
anyhow = "=1.0.104"
hashbrown = "=0.17.1"
mlua = { version = "=0.10.5", features = ["luajit", "vendored"] }
nvim-oxi = { version = "=0.6.0", features = ["neovim-0-11", "mlua"] }
