[package]
name = "metadata_macro"
version = "0.1.0"
edition = "2021"
publish = false

[dependencies]
itertools = "=0.15.0"
# Without the `proc-macro` feature: tokenizing is then the work of
# proc-macro2's own lexer in every process. A front end that switches the
# feature on for the whole build makes it depend on the process inside a
# macro expansion. syn and quote are kept from switching it on as well.
proc-macro2 = { version = "=1.0.107", default-features = false }
quote = { version = "=1.0.47", default-features = false }
syn = { version = "=2.0.119", default-features = false, features = ["full", "parsing"] }
