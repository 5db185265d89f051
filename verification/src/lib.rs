//! Verified core of a zero-trust service-access gateway.

pub mod client;
pub mod gateway;
pub mod crypto;
pub mod error;
pub mod model;
pub mod net;
pub mod proxy;
pub mod text;
