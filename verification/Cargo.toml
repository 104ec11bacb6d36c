[package]
name = "spades-runner"
version = "0.3.0"
edition = "2021"
publish = false

[dependencies]
chrono = "0.4"
clap = "2"
glob = "0.3"
num_cpus = "1"
spinners = "1"
sysinfo = "0.16"
walkdir = "2"
