[package]
name = "mchose_tray"
version = "0.1.0"
edition = "2021"
publish = false

[dependencies]
png = "*"
fontdue = "*"
hidapi = "*"
tray-icon = "*"
windows-sys = { version = "*", features = ["Win32_Foundation", "Win32_Security", "Win32_Storage_FileSystem", "Win32_System_LibraryLoader", "Win32_System_Registry", "Win32_System_SystemInformation", "Win32_System_Threading", "Win32_UI_WindowsAndMessaging"] }
