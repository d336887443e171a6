[package]
name = "stirrup"
version = "0.1.0"
edition = "2021"
publish = false

[dependencies]
anyhow = "1"
clap = { version = "4", features = ["derive"] }
crossterm = "0.29"
directories = "6"
ratatui = "0.30"
serde = { version = "1", features = ["derive"] }
toml = "0.9"
tui-input = "*"
