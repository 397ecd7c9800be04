[package]
name = "git_nope"
version = "0.1.0"
edition = "2021"
publish = false

[dependencies]
anyhow = "*"
chrono = "=0.4.45"
git2 = "=0.21.0"
gix = "=0.88.0"
gix-actor = "=0.43.0"
gix-index = "=0.56.0"
gix-object = "=0.65.0"
