[package]
name = "u2f_authenticator"
version = "0.1.0"
edition = "2021"
publish = false

[dependencies]
sha2 = "0.10"
p256 = "0.13"
x509-cert = "0.2"
hidapi = { version = "2", default-features = false, features = ["linux-native-basic-udev"] }
thiserror = "1"
serde = { version = "1", features = ["derive"] }
getrandom = "0.2"
