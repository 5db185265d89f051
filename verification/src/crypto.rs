//! What the gateway reads out of the TLS layer.

pub mod alpn;
pub mod asn;
pub mod identity;
