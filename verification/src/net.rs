//! The network servers, as state machines that a caller drives with the
//! outcome of each socket operation.

pub mod addr;
pub mod channel;
pub mod io;
pub mod tcp_server;
pub mod udp_server;
