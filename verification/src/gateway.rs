//! The gateway side: configuration, repositories and the service manager.

pub mod config;
pub mod repository;
pub mod service;
