[package]
name = "debug_symbols"
version = "0.1.0"
edition = "2021"
publish = false

[dependencies]
cpp_demangle = "*"
gimli = "*"
indexmap = "*"
memmap2 = "*"
object = "*"
