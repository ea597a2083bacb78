[package]
name = "sketchover"
version = "0.1.0"
edition = "2021"
publish = false

[dependencies]
anyhow = "1"
bytemuck = "1"
calloop = "0.12"
clap = { version = "4", features = ["derive"] }
confy = "0.5"
cursor-icon = "1"
font-kit = "*"
hex_color = "*"
log = "0.4"
mlua = { version = "0.9", features = ["lua54", "vendored"] }
pathfinder_geometry = "0.5"
raqote = "0.8"
serde = { version = "1", features = ["derive"] }
serde_json = "1"
smithay-client-toolkit = "0.18"
wayland-client = "0.31"
xdg = "2"
xkbcommon = "0.7"
