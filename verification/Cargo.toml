[package]
name = "crontab_parser"
version = "0.1.0"
edition = "2021"
publish = false

[dependencies]
nom = "*"
graphile_worker_crontab_types = "*"
