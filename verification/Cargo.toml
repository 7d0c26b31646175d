[package]
name = "kno3_chess_engine"
version = "0.1.0"
edition = "2021"

[dependencies]
clap = "4"
regex = "1"
