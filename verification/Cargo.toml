[package]
name = "omni-kvm"
version = "0.2.0"
edition = "2021"
publish = false

[dependencies]
serialport = { version = "4", default-features = false }
windows-sys = { version = "0.59", features = ["Win32_Foundation", "Win32_System_LibraryLoader", "Win32_UI_Input", "Win32_UI_Input_KeyboardAndMouse", "Win32_UI_WindowsAndMessaging"] }
