[package]
name = "conge"
version = "0.1.0"
edition = "2021"
publish = false

[dependencies]
winapi = { version = "0.3", features = ["consoleapi", "fileapi", "processenv", "winbase", "wincon", "wincontypes", "minwindef", "ntdef", "impl-default"] }
