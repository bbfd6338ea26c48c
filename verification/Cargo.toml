[package]
name = "ioc_probe"
version = "0.1.0"
edition = "2021"
publish = false

[dependencies]
base64 = "=0.23.1"
chrono = { version = "=0.4.45", features = ["serde"] }
config = { version = "=0.15.27", default-features = false, features = ["toml"] }
dirs = "=7.0.0"
dns-lookup = "=4.0.2"
hex = "=0.4.3"
log = "=0.4.34"
md-5 = "=0.11.0"
netstat = "=0.6.2"
regex = "=1.13.1"
reqwest = { version = "=0.13.5", default-features = false, features = ["blocking", "json"] }
rustls = { version = "=0.23.46", default-features = false, features = ["std"] }
rustls-native-certs = "=0.8.5"
serde = { version = "=1.0.229", features = ["derive"] }
serde_json = "=1.0.154"
sha1 = "=0.11.0"
sha2 = "=0.11.1"
simplelog = "=0.12.2"
sysinfo = "=0.39.6"
uuid = { version = "=1.29.0", features = ["v4"] }
walkdir = "=2.5.0"
widestring = "=1.2.1"
winapi = { version = "=0.3.9", features = ["fileapi", "handleapi", "libloaderapi", "memoryapi", "processthreadsapi", "securitybaseapi", "winbase", "winnt", "errhandlingapi", "winerror", "minwindef", "ntdef"] }
winreg = "=0.56.0"
