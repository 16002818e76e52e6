[package]
name = "tic_tac_toe_evolution"
version = "0.1.0"
edition = "2021"
publish = false

[dependencies]
rand = "=0.7.3"
gtk = "0.8"
gio = "0.8"
cairo-rs = "0.8"
