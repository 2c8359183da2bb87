[package]
name = "form_submission"
version = "0.1.0"
edition = "2021"
publish = false

[dependencies]
lettre = { version = "*", default-features = false, features = ["sendmail-transport", "builder"] }
validator = "*"
