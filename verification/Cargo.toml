[package]
name = "vibe_boot"
version = "0.1.0"
edition = "2021"
publish = false

[dependencies]
spleen-font = { version = "=0.2.0", features = ["s8x16", "s16x32"] }
linked_list_allocator = "=0.10.6"
