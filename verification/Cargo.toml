[package]
name = "bip39_last_word"
version = "0.1.0"
edition = "2021"
publish = false

[dependencies]
bip39 = { version = "2", features = ["chinese-simplified"] }
bitcoin_hashes = "0.14"
pinyin = "0.10"
bdk_chain = "*"
miniscript = "12"
embedded-hal = "1"
embedded-hal-async = "1"
log = "0.4"
