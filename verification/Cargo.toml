[package]
name = "pypi_install_plan"
version = "0.1.0"
edition = "2021"
publish = false

[dependencies]
url = "*"
percent-encoding = "*"
pep440_rs = "*"
