[package]
name = "innerput"
version = "0.1.0"
edition = "2021"
publish = false

[dependencies]
thiserror = "1"
winapi = { version = "0.3", features = ["minwindef", "processthreadsapi", "windef", "winuser"] }
