[package]
name = "stmt_lowering"
version = "0.1.0"
edition = "2021"
publish = false

[dependencies]
cranelift = "0.59"
thiserror = "=1.0.69"
