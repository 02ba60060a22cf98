[package]
name = "stylus_input_capture"
version = "0.1.0"
edition = "2021"
publish = false

[dependencies]
clap = { version = "=4.6.7", features = ["derive"] }
ctrlc = "=3.5.2"
directories = "=6.0.0"
eframe = { version = "=0.37.0", default-features = false, features = ["default_fonts", "glow", "x11"] }
egui = { version = "=0.37.0", default-features = false }
midir = "=0.11.1"
postcard = { version = "=1.1.3", features = ["use-std"] }
rtrb = "=0.4.1"
serde = { version = "=1.0.229", features = ["derive"] }
serde_json = "=1.0.154"
thiserror = "=2.0.21"
toml = "=1.1.8"
tracing = "=0.1.44"
tracing-subscriber = { version = "=0.3.23", features = ["env-filter"] }
windows-sys = { version = "=0.61.2", features = ["Win32_Devices_HumanInterfaceDevice", "Win32_Foundation", "Win32_Graphics_Gdi", "Win32_Security", "Win32_Storage_FileSystem", "Win32_System_IO", "Win32_System_LibraryLoader", "Win32_System_Performance", "Win32_System_Pipes", "Win32_UI_Input", "Win32_UI_WindowsAndMessaging"] }
