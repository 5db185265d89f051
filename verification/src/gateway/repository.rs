//! The repositories of the gateway: services, users, and who may use what.

pub mod access_repo;
pub mod service_repo;
pub mod user_repo;
