[package]
name = "sheepit_client"
version = "0.1.0"
edition = "2021"
publish = false

[dependencies]
anyhow = "1"
crossterm = "=0.27.0"
defer = "0.2"
futures-util = "0.3"
indoc = "2"
lazy_static = "1"
machineid-rs = "1"
md5 = "=0.7.0"
rand = "=0.8.8"
ratatui = "=0.26.3"
raw-cpuid = "11"
regex = "=1.13.1"
reqwest = { version = "=0.12.28", default-features = false, features = ["cookies", "multipart", "stream"] }
rustc_version = "0.4"
serde = { version = "1", features = ["derive"] }
serde-xml-rs = "0.6"
sysinfo = { version = "0.29", default-features = false }
tokio = { version = "1", features = ["fs", "io-util", "macros", "process", "rt-multi-thread", "sync", "time"] }
urlencoding = "=2.1.3"
zip = { version = "=0.6.6", default-features = false, features = ["aes-crypto", "deflate"] }
