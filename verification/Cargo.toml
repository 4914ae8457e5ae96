[package]
name = "kumo_userland"
version = "0.1.0"
edition = "2021"
publish = false

[dependencies]
piccolo = "0.3.3"
linked_list_allocator = { version = "0.10", default-features = false }
