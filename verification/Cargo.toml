[package]
name = "wallpaper_store"
version = "0.1.0"
edition = "2021"
publish = false

[dependencies]
serde_json = "=1.0.154"
log = "=0.4.34"
tauri = { version = "=2.12.5", default-features = false, features = ["wry"] }
tauri-plugin-fs = "=2.7.1"
jni = "=0.21.1"
ndk-context = "=0.1.1"
