[package]
name = "netplay"
version = "0.1.0"
edition = "2021"
publish = false
