[package]
name = "errno"
version = "0.1.0"
edition = "2021"
publish = false

[dependencies]
widestring = "0.5"
libc = "0.2"
winapi = { version = "0.3", features = ["errhandlingapi", "minwindef", "ntdef", "winbase"] }
errno-dragonfly = "0.1"
