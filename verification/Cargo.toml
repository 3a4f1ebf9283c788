[package]
name = "wallpaper_archive"
version = "0.1.0"
edition = "2021"
publish = false

[dependencies]
icrate = { version = "=0.0.2", features = ["AppKit_all", "AppKit_NSPopover", "Foundation_all"] }
