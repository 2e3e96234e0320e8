[package]
name = "better_terminal"
version = "0.1.0"
edition = "2021"
publish = false

[dependencies]
dirs = "5"
glib = "0.20"
gtk4 = "0.9"
libadwaita = "0.7"
pango = "0.20"
vte4 = "0.8"
