[package]
name = "melorun"
version = "0.1.0"
edition = "2021"
publish = false

[dependencies]
blake3 = { version = "=1.8.7", features = ["pure"] }
ethnum = "=1.5.3"
hex = "=0.4.3"
melodeon = "*"
mil = "*"
serde = { version = "1", features = ["derive"] }
serde_yaml = "*"
snailquote = "=0.3.1"
themelio-stf = "=0.6.19"
tmelcrypt = "=0.2.7"
