[package]
name = "spatialbench"
version = "0.1.0"
edition = "2021"
publish = false

[dependencies]
csv = "=1.4.0"
hprtree = "=0.2.3"
rand = "=0.8.8"
rstar = "=0.13.0"
