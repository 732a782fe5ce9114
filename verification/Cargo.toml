[package]
name = "okkhor_gui"
version = "0.1.0"
edition = "2021"
publish = false

[dependencies]
okkhor = { version = "=0.10.0", features = ["editor"] }
windows = { version = "=0.59.0", features = ["Win32_Foundation", "Win32_System_Registry", "Win32_System_LibraryLoader", "Win32_System_Threading", "Win32_System_Com", "Win32_UI_WindowsAndMessaging", "Win32_UI_Input_KeyboardAndMouse", "Win32_UI_Accessibility", "Win32_UI_Shell", "Win32_Graphics_Gdi"] }
