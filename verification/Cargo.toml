[package]
name = "gpui_scene"
version = "0.1.0"
edition = "2021"
publish = false

[dependencies]
etagere = "=0.2.15"
anyhow = "=1.0.104"
log = "=0.4.35"
parking_lot = "=0.12.5"
itertools = "=0.14.0"
tracing = "=0.1.44"
serde = { version = "=1.0.229", features = ["derive"] }
schemars = "=1.2.3"
windows = { version = "=0.58.0", features = ["Win32_Foundation", "Win32_Graphics_Direct3D", "Win32_Graphics_Direct3D_Fxc", "Win32_Graphics_Direct3D11", "Win32_Graphics_DirectComposition", "Win32_Graphics_DirectWrite", "Win32_Graphics_Dxgi", "Win32_Graphics_Dxgi_Common", "Win32_Graphics_Gdi", "Win32_Graphics_Hlsl", "Win32_System_LibraryLoader", "Win32_Security", "Win32_System_Com"] }
