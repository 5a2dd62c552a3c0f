[package]
name = "omango_sync"
version = "0.1.0"
edition = "2021"
publish = false

[dependencies]
omango-futex = "*"
omango-util = "*"
