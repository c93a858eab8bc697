[package]
name = "fluent_static"
version = "0.1.0"
edition = "2021"
publish = false

[dependencies]
convert_case = "*"
accept-language = "*"
intl_pluralrules = "*"
unic-langid = "*"
fluent-syntax = "*"
