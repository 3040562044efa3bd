//! Verified core of an HTTP honeypot that answers crawlers with byte streams
//! that never end. The library holds the content strategies, the Markov-chain
//! corpus model, and the session/admission bookkeeping; the surrounding binary
//! supplies the HTTP plumbing and hands the library plain values.

pub mod args;
pub mod chain;
pub mod config;
pub mod error_code;
pub mod generator;
pub mod handler;
pub mod handlers;
mod rng;
pub mod session;
