//! The client side: the manager of the local service proxies.

pub mod service;
