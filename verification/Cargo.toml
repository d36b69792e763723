[package]
name = "taskwarrior-tui"
version = "0.1.0"
edition = "2021"
publish = false

[dependencies]
unicode-width = "=0.2.3"
unicode-segmentation = "=1.13.3"
unicode-truncate = "=2.0.1"
chrono = "=0.4.45"
shlex = "=1.3.0"
task-hookrs = "=0.9.0"
uuid = "=1.29.0"
dirs = "=6.0.0"
anyhow = "=1.0.104"
regex = "=1.13.1"
rustyline = "*"
versions = "*"
ratatui = "*"
crossterm = "*"

[dev-dependencies]
pretty_assertions = "=1.4.1"
