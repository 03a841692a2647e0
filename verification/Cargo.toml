[package]
name = "voxel_quest"
version = "0.1.0"
edition = "2021"
publish = false

[dependencies]
bevy = { version = "=0.18.1", default-features = false, features = ["std", "multi_threaded", "async_executor", "bevy_asset", "bevy_state", "bevy_window", "bevy_log", "bevy_pbr", "bevy_ui", "bevy_ui_render", "bevy_text", "bevy_post_process", "bevy_anti_alias", "bevy_core_pipeline", "bevy_render", "bevy_light", "bevy_camera", "bevy_mesh", "bevy_image", "bevy_color", "bevy_input_focus", "bevy_picking", "experimental_bevy_feathers", "default_font", "png"] }
const-siphasher = "=1.0.2"
indexmap = "=2.14.2"
noise = "=0.9.0"
rand = "=0.10.3"
ron = "=0.12.3"
serde = { version = "=1.0.229", features = ["derive"] }
