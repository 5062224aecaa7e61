[package]
name = "hidden_char_cleaner"
version = "0.1.0"
edition = "2021"
publish = false

[dependencies]
eframe = { version = "=0.37.0", default-features = false, features = ["default_fonts", "glow", "x11"] }
egui = { version = "=0.37.0", default-features = false, features = ["default_fonts"] }
rfd = { version = "=0.17.2", default-features = false, features = ["xdg-portal"] }
sys-locale = "=0.3.2"
unicode-general-category = "=1.1.0"
unicode-normalization = "=0.1.26"
webbrowser = "=1.2.6"
zip = { version = "=9.2.2", default-features = false, features = ["deflate"] }
