[package]
name = "inlay_hints"
version = "0.1.0"
edition = "2021"
publish = false

[dependencies]
once_cell = "=1.21.4"
ra_ap_hir = "=0.0.325"
ra_ap_ide_db = "=0.0.325"
ra_ap_syntax = "=0.0.325"
