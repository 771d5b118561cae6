[package]
name = "collector_core"
version = "0.1.0"
edition = "2021"
publish = false

[dependencies]
chrono = "0.4"
clap = { version = "4", features = ["derive"] }
csv-async = { version = "1", features = ["tokio"] }
filetime = "0.2"
glob = "0.3"
hex = "0.4"
log = "0.4"
nix = { version = "*", features = ["user"] }
ntfs = "*"
serde = { version = "1", features = ["derive"] }
serde_yml = "*"
sha1 = "0.10"
simplelog = "*"
sysinfo = "*"
thiserror = "*"
tokio = { version = "1", features = ["fs", "io-util", "macros", "rt-multi-thread", "sync"] }
toml = "0.5"
uuid = { version = "1", features = ["v4"] }
walkdir = "2"
widestring = "1"
winapi = { version = "0.3", features = ["cguid", "combaseapi", "fileapi", "minwindef", "objidl", "processthreadsapi", "rpcdce", "securitybaseapi", "vsbackup", "vss", "winerror", "winnt"] }
zip = { version = "*", default-features = false, features = ["aes-crypto", "deflate"] }
