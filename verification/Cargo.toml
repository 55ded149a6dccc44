[package]
name = "branch_sweeper"
version = "0.1.0"
edition = "2021"
publish = false

[dependencies]
clap = { version = "4", features = ["derive"] }
color-eyre = "*"
console = "*"
eyre = "*"
git2 = "*"
git2_credentials = "*"
human-units = "*"
inquire = "*"
verynicetable = "*"
