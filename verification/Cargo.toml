[package]
name = "procmem"
version = "0.1.0"
edition = "2021"
publish = false

[dependencies]
regex = "1"
winapi = { version = "0.3", features = ["basetsd", "errhandlingapi", "handleapi", "memoryapi", "minwindef", "processthreadsapi", "psapi", "tlhelp32", "winnt", "wow64apiset"] }
eframe = "0.19"
egui_extras = { version = "0.19", features = ["image"] }
ehttp = "0.2"
poll-promise = "0.2"
sysinfo = "0.26"
image = { version = "0.24", default-features = false, features = ["png"] }
