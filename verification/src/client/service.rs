//! The service proxies of the client and their manager.

pub mod manager;
pub mod proxy;
