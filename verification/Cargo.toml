[package]
name = "lotus_extract"
version = "0.1.0"
edition = "2021"
publish = false

[dependencies]
anyhow = "1"
chrono = "0.4"
clap = { version = "4", features = ["derive"] }
color-eyre = "0.6"
crc = "3"
crossterm = { version = "0.27", features = ["event-stream"] }
ddsfile = "*"
derivative = "2"
futures = "0.3"
log = "0.4"
lotus-lib = "*"
lotus-utils-audio = "*"
lotus-utils-texture = "*"
lscolors = "*"
rand = "0.8"
ratatui = { version = "0.26", features = ["unstable-widget-ref"] }
relative-path = "1"
rustyline = "*"
serde_json = "1"
shellfish = "*"
term_grid = "*"
terminal_size = "*"
tokio = { version = "1", features = ["full"] }
yansi = "*"
