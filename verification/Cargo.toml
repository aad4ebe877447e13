[package]
name = "code_gen_core"
version = "0.1.0"
edition = "2021"
publish = false

[dependencies]
convert_case = "*"
tera = "*"
ion-schema = "*"
anyhow = "*"
clap = "*"
glob = "*"
proc-macro2 = "*"
quote = "*"
syn = "*"

[dev-dependencies]
ion-rs = "*"
