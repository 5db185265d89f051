//! A backend service reachable through the gateway.

use vstd::prelude::*;

verus! {

/// How traffic to a service is carried.
#[derive(Clone, Copy, Debug, PartialEq, Eq, Structural)]
pub enum Transport {
    TCP,
    UDP,
}

impl Default for Transport {
    fn default() -> (transport: Transport)
        ensures
            transport == Transport::TCP,
    {
        Transport::TCP
    }
}

/// A service record, identified by `service_id`.
#[derive(Debug, PartialEq)]
pub struct Service {
    pub service_id: u64,
    pub name: String,
    pub transport: Transport,
    pub host: String,
    pub port: u16,
}

/// What a `Service` holds, as mathematical values.
pub struct ServiceView {
    pub service_id: u64,
    pub name: Seq<char>,
    pub transport: Transport,
    pub host: Seq<char>,
    pub port: u16,
}

impl View for Service {
    type V = ServiceView;

    open spec fn view(&self) -> ServiceView {
        ServiceView {
            service_id: self.service_id,
            name: self.name@,
            transport: self.transport,
            host: self.host@,
            port: self.port,
        }
    }
}

impl Clone for Service {
    fn clone(&self) -> (copy: Service)
        ensures
            copy == *self,
    {
        Service {
            service_id: self.service_id,
            name: self.name.clone(),
            transport: self.transport,
            host: self.host.clone(),
            port: self.port,
        }
    }
}

impl Service {
    /// Builds a service record from its five fields.
    pub fn new(service_id: u64, name: &str, transport: Transport, host: &str, port: u16) -> (service:
        Service)
        ensures
            service@ == (ServiceView { service_id, name: name@, transport, host: host@, port }),
    {
        Service {
            service_id,
            name: String::from_str(name),
            transport,
            host: String::from_str(host),
            port,
        }
    }
}

} // verus!
