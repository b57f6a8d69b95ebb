[package]
name = "morse_input"
version = "0.1.0"
edition = "2021"
publish = false

[dependencies]
enigo = { version = "0.1", features = ["with_serde"] }
serde = { version = "1", features = ["derive"] }
toml = "0.8"
windows = { version = "0.48", features = ["Win32_Foundation", "Win32_UI_Input_KeyboardAndMouse", "Win32_System_Diagnostics_Debug"] }
