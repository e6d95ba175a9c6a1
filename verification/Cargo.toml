[package]
name = "flock"
version = "0.1.0"
edition = "2021"
publish = false

[dependencies]
rand = "=0.10.3"
bevy = { version = "=0.18.1", default-features = false, features = ["std", "bevy_state", "bevy_window", "bevy_sprite", "bevy_text", "keyboard", "mouse"] }
bevy_window = { version = "=0.18.1", default-features = false, features = ["std", "custom_cursor"] }
