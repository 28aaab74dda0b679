[package]
name = "devconsole"
version = "0.1.0"
edition = "2021"
publish = false

[dependencies]
bevy = { version = "=0.19.1", default-features = false, features = ["std", "async_executor", "multi_threaded", "bevy_log", "bevy_asset", "bevy_color", "bevy_camera", "bevy_window", "bevy_text", "bevy_ui", "bevy_ui_render", "bevy_core_pipeline", "default_font"] }
mlua = { version = "=0.12.2", features = ["lua54", "vendored"] }
