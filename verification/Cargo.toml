[package]
name = "sp_mvm"
version = "0.1.0"
edition = "2021"
publish = false
