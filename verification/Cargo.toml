[package]
name = "ratatui_notty"
version = "0.1.0"
edition = "2021"
publish = false

[dependencies]
crossterm = "=0.29.0"
ratatui-core = { version = "=0.1.2", features = ["underline-color", "scrolling-regions"] }
