[package]
name = "native"
version = "0.1.0"
edition = "2021"
publish = false

[dependencies]
crossterm = "0.29"
windows = { version = "0.61", features = ["Win32_Foundation", "Win32_System_Registry", "Win32_System_Services", "Win32_System_Com", "Win32_System_TaskScheduler", "Win32_System_Variant", "Win32_System_Ole", "Win32_NetworkManagement_WindowsFirewall", "Win32_System_Diagnostics_Debug", "Win32_Security"] }
