[package]
name = "xml2abx"
version = "0.1.0"
edition = "2021"

[dependencies]
byteorder = "1"
clap = "4"
quick-xml = "0.38"
thiserror = "2"
