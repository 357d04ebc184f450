//! A SOCKS5 ingress and a TLS tunnel egress that disguises itself as a web
//! server: wire codecs, session decisions and their proofs.
pub mod codec;
pub mod socks;
pub mod auth;
pub mod relay;
pub mod resolve;
pub mod config;
