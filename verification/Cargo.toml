[package]
name = "websocket_chat"
version = "0.1.0"
edition = "2021"
publish = false

[dependencies]
actix = "=0.8.3"
actix-web = { version = "=1.0.9", default-features = false }
actix-web-actors = "=1.0.4"
# Not used by this crate. actix-http 0.2, which actix-web 1.0 stands on,
# subtracts a chrono Duration from a time 0.1 Tm, and that compiles only
# while the two are one type, which ends with chrono 0.4.19.
chrono = "=0.4.19"
futures = "=0.1.31"
