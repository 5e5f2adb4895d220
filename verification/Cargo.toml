[package]
name = "wxml_compiler"
version = "0.1.0"
edition = "2021"
publish = false

[dependencies]
entities = "*"
log = "0.4"
pest = "2"
pest_derive = "2"
