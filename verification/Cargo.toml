[package]
name = "sniffy"
version = "0.1.0"
edition = "2021"
publish = false

[dependencies]
clap = { version = "4", features = ["derive"] }
crossterm = "*"
ctrlc = "*"
eframe = { version = "*", default-features = false }
pcap = "*"
ratatui = "*"
