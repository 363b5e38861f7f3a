[package]
name = "note_commit"
version = "0.1.0"
edition = "2021"
publish = false

[dependencies]
pasta_curves = "*"
halo2 = "*"
ff = "*"
group = "*"
