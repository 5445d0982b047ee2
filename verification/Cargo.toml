[package]
name = "rumi_protocol_backend"
version = "0.1.0"
edition = "2021"
publish = false

[dependencies]
rust_decimal = { version = "1", default-features = false }
candid = "*"
ic-cdk = "*"
ic-cdk-timers = "*"
ic-canister-log = "*"
ic-xrc-types = "*"
icrc-ledger-types = "*"
icrc-ledger-client-cdk = "*"
num-traits = "0.2"
serde = { version = "1", features = ["derive"] }
