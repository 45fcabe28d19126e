[package]
name = "weightvec"
version = "0.1.0"
edition = "2021"
publish = false

[dependencies]
fenwick-tree = "*"
rand = "0.8"
rand_xoshiro = "0.6"
counter = "*"
gnuplot = "*"
time = "*"
