[package]
name = "asp_mailbox_driver"
version = "0.1.0"
edition = "2021"
publish = false

[dependencies]
cstr_core = "=0.2.6"
log = "=0.4.34"
