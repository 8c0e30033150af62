[package]
name = "competition_services"
version = "0.1.0"
edition = "2021"
publish = false

[dependencies]
hmac = "0.12"
jwt = "0.16"
oasis-std = "0.3.5"
rand = "=0.7.3"
rand_pcg = "=0.2.1"
sha2 = "0.10"
