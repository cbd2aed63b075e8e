[package]
name = "empl"
version = "0.1.0"
edition = "2021"
publish = false

[dependencies]
bstr = "1"
bumpalo = "3"
crossterm = "0.28"
dirs = "5"
errno = "0.3"
getargs = "0.5"
ident_case = "1"
libc = "0.2"
nonempty-collections = "0.3"
tokio = { version = "1", features = ["io-util", "io-std", "rt", "macros"] }
unicode-ident = "1"
unicode-width = "0.2"
