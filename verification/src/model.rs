//! Records held by the repositories.

pub mod access;
pub mod service;
pub mod user;
