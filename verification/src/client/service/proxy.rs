//! The live connections of one service proxy on the client.

use vstd::prelude::*;
use crate::model::service::Service;
use crate::proxy::event::{all_close, task_keys, ProxyExecutorEvent};
use crate::proxy::registry::ProxyKeyTable;

verus! {

/// Where the proxy of a service stands: the client's local port, and the
/// gateway's host and port that the tunnel goes to.
#[derive(Debug, PartialEq)]
pub struct ProxyAddrs(pub u16, pub String, pub u16);

impl ProxyAddrs {
    /// The local port that applications connect to.
    pub fn get_client_port(&self) -> (port: u16)
        ensures
            port == self.0,
    {
        self.0
    }

    /// The host of the gateway.
    pub fn get_gateway_host(&self) -> (host: &str)
        ensures
            host@ == self.1@,
    {
        self.1.as_str()
    }

    /// The port of the gateway that the tunnel goes to.
    pub fn get_gateway_port(&self) -> (port: u16)
        ensures
            port == self.2,
    {
        self.2
    }
}

impl Clone for ProxyAddrs {
    fn clone(&self) -> (copy: ProxyAddrs)
        ensures
            copy == *self,
    {
        ProxyAddrs(self.0, self.1.clone(), self.2)
    }
}

impl Default for ProxyAddrs {
    fn default() -> (addrs: ProxyAddrs)
        ensures
            addrs.0 == 0,
            addrs.1@ == Seq::<char>::empty(),
            addrs.2 == 0,
    {
        ProxyAddrs(0, String::new(), 0)
    }
}

/// The state of one service proxy on the client: the service, where its
/// listener stands, and the proxy keys of the live connections.
pub struct ClientServiceProxyVisitor {
    service: Service,
    proxy_addrs: ProxyAddrs,
    shutdown_requested: bool,
    proxies: ProxyKeyTable,
}

impl ClientServiceProxyVisitor {
    /// The service that is proxied.
    pub closed spec fn service(&self) -> Service {
        self.service
    }

    /// Where the proxy stands.
    pub closed spec fn addrs(&self) -> ProxyAddrs {
        self.proxy_addrs
    }

    /// Whether the listener is asked to shut down.
    pub closed spec fn shutdown_flag(&self) -> bool {
        self.shutdown_requested
    }

    /// The proxy keys of the live connections, in the order in which they came.
    pub closed spec fn keys(&self) -> Seq<Seq<char>> {
        self.proxies.keys()
    }

    /// Whether a connection is held under `key`.
    pub closed spec fn holds(&self, key: Seq<char>) -> bool {
        self.proxies@.contains_key(key)
    }

    /// No proxy key is held twice.
    pub closed spec fn wf(&self) -> bool {
        self.proxies.wf()
    }

    /// The keys listed are those held, each once.
    pub proof fn lemma_listing(&self)
        requires
            self.wf(),
        ensures
            self.keys().no_duplicates(),
            forall|key: Seq<char>| #[trigger] self.holds(key) <==> self.keys().contains(key),
    {
        assert forall|key: Seq<char>| #[trigger] self.holds(key) <==> self.keys().contains(
            key,
        ) by {
            if self.holds(key) {
                let i = self.proxies.index_of(key);
                assert(self.keys()[i] == key);
            }
            if self.keys().contains(key) {
                let i = choose|i: int| 0 <= i < self.keys().len() && self.keys()[i] == key;
                self.proxies.lemma_index(i);
            }
        }
        assert forall|i: int, j: int|
            0 <= i < self.keys().len() && 0 <= j < self.keys().len() && i != j implies self.keys()[i]
            != self.keys()[j] by {
            self.proxies.lemma_index(i);
            self.proxies.lemma_index(j);
        }
    }

    /// The state of a new proxy for `service`, with no connection.
    pub fn new(service: Service, proxy_addrs: ProxyAddrs) -> (visitor: Self)
        ensures
            visitor.wf(),
            visitor.service() == service,
            visitor.addrs() == proxy_addrs,
            !visitor.shutdown_flag(),
            visitor.keys() == Seq::<Seq<char>>::empty(),
            forall|key: Seq<char>| !visitor.holds(key),
    {
        ClientServiceProxyVisitor {
            service,
            proxy_addrs,
            shutdown_requested: false,
            proxies: ProxyKeyTable::new(),
        }
    }

    /// The service that is proxied.
    pub fn get_service(&self) -> (service: &Service)
        ensures
            *service == self.service(),
    {
        &self.service
    }

    /// The id of the service that is proxied.
    pub fn get_service_id(&self) -> (service_id: u64)
        ensures
            service_id == self.service().service_id,
    {
        self.service.service_id
    }

    /// Where the proxy stands.
    pub fn get_proxy_addrs(&self) -> (addrs: &ProxyAddrs)
        ensures
            *addrs == self.addrs(),
    {
        &self.proxy_addrs
    }

    /// Whether the listener is asked to shut down.
    pub fn get_shutdown_requested(&self) -> (requested: bool)
        ensures
            requested == self.shutdown_flag(),
    {
        self.shutdown_requested
    }

    /// Asks the listener to shut down, or takes the request back.
    pub fn set_shutdown_requested(&mut self, requested: bool)
        ensures
            final(self).shutdown_flag() == requested,
            final(self).service() == old(self).service(),
            final(self).addrs() == old(self).addrs(),
            final(self).keys() == old(self).keys(),
            final(self).wf() == old(self).wf(),
            forall|key: Seq<char>| final(self).holds(key) == old(self).holds(key),
    {
        self.shutdown_requested = requested;
    }

    /// The number of live connections.
    pub fn proxy_count(&self) -> (count: usize)
        ensures
            count == self.keys().len(),
    {
        self.proxies.len()
    }

    /// Whether a connection is held under `proxy_key`.
    pub fn has_proxy(&self, proxy_key: &str) -> (held: bool)
        ensures
            held == self.holds(proxy_key@),
    {
        self.proxies.contains_key(proxy_key)
    }

    /// Holds a new connection under `proxy_key`, unless the key is in use;
    /// says whether it was added.
    pub fn add_proxy(&mut self, proxy_key: &str) -> (added: bool)
        requires
            old(self).wf(),
        ensures
            final(self).wf(),
            added == !old(self).holds(proxy_key@),
            forall|key: Seq<char>|
                final(self).holds(key) == (old(self).holds(key) || key == proxy_key@),
            added ==> final(self).keys() == old(self).keys().push(proxy_key@),
            !added ==> *final(self) == *old(self),
            final(self).service() == old(self).service(),
            final(self).addrs() == old(self).addrs(),
            final(self).shutdown_flag() == old(self).shutdown_flag(),
    {
        let service_id = self.service.service_id;
        self.proxies.insert(proxy_key, service_id)
    }

    /// Lets go of the connection under `proxy_key`; says whether there was one.
    pub fn remove_proxy_for_key(&mut self, proxy_key: &str) -> (removed: bool)
        requires
            old(self).wf(),
        ensures
            final(self).wf(),
            removed == old(self).holds(proxy_key@),
            forall|key: Seq<char>|
                final(self).holds(key) == (old(self).holds(key) && key != proxy_key@),
            !removed ==> *final(self) == *old(self),
            final(self).service() == old(self).service(),
            final(self).addrs() == old(self).addrs(),
            final(self).shutdown_flag() == old(self).shutdown_flag(),
    {
        self.proxies.remove(proxy_key).is_some()
    }

    /// The tasks that close the live connections: one for each, in the
    /// order in which the connections came. The connections stay on record
    /// until each is reported closed.
    pub fn shutdown_connections(&self) -> (tasks: Vec<ProxyExecutorEvent>)
        ensures
            all_close(tasks@),
            task_keys(tasks@) == self.keys(),
    {
        let mut tasks: Vec<ProxyExecutorEvent> = Vec::new();
        let count = self.proxies.len();
        let mut i: usize = 0;
        while i < count
            invariant
                i <= count,
                count == self.keys().len(),
                tasks@.len() == i,
                all_close(tasks@),
                forall|j: int| 0 <= j < i ==> (#[trigger] tasks@[j]).key() == self.keys()[j],
            decreases count - i,
        {
            let (key, _) = self.proxies.entry(i);
            tasks.push(ProxyExecutorEvent::Close(String::from_str(key)));
            i = i + 1;
        }
        assert(task_keys(tasks@) =~= self.keys());
        tasks
    }
}

} // verus!
