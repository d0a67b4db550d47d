[package]
name = "tarnos"
version = "0.1.0"
edition = "2021"
publish = false

[dependencies]
bitflags = "=2.13.2"
limine = "=0.5.0"
linked_list_allocator = "=0.10.6"
pic8259 = "=0.11.0"
spin = "=0.9.9"
x86_64 = { version = "=0.15.5", default-features = false, features = ["instructions"] }
