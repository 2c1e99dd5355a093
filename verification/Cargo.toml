[package]
name = "taskbar_ip"
version = "1.2.4"
edition = "2021"
publish = false

[dependencies]
sha2 = "0.10"
serde_json = "1"
winapi = { version = "0.3.9", features = ["minwindef", "windef", "ntdef", "winerror", "ws2def", "iphlpapi", "iptypes", "libloaderapi", "synchapi", "winhttp", "winnt", "winreg", "winuser", "wingdi", "processthreadsapi", "securitybaseapi", "handleapi", "errhandlingapi", "tlhelp32", "fileapi"] }
