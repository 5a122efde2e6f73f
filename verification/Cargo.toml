[package]
name = "cir"
version = "0.1.0"
edition = "2021"
publish = false

[dependencies]
codespan = "0.11"
dashmap = "5"
enum-map = "2"
la-arena = "0.3"
peg = "0.8"
rustc-hash = "1"
smallvec = "1"
smol_str = "0.2"
