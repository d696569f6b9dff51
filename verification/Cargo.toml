[package]
name = "neopatch_core"
version = "0.1.0"
edition = "2021"
publish = false

[dependencies]
png = "=0.18.1"
tracing = "=0.1.44"
tracing-subscriber = "=0.3.23"
windows = { version = "=0.58.0", features = ["Win32_Devices_HumanInterfaceDevice", "Win32_Foundation", "Win32_Graphics_Direct3D9", "Win32_Graphics_Gdi"] }
windows-sys = { version = "=0.61.2", features = ["Wdk_Foundation", "Wdk_System_Threading", "Win32_Foundation", "Win32_Globalization", "Win32_Graphics_Gdi", "Win32_Media", "Win32_Security", "Win32_Storage_FileSystem", "Win32_System_Console", "Win32_System_Diagnostics_Debug", "Win32_System_Diagnostics_ToolHelp", "Win32_System_IO", "Win32_System_Kernel", "Win32_System_LibraryLoader", "Win32_System_Memory", "Win32_System_Performance", "Win32_System_ProcessStatus", "Win32_System_SystemInformation", "Win32_System_SystemServices", "Win32_System_Threading", "Win32_System_WindowsProgramming", "Win32_UI_WindowsAndMessaging"] }
