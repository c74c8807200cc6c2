[package]
name = "tysh"
version = "0.1.0"
edition = "2021"
publish = false

[dependencies]
ansi_term = "0.12.1"
gimli = "0.26.2"
object = "0.27.1"
rustyline = "9.1.2"
structopt = "0.3.26"
