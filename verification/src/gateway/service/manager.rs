//! The manager of the gateway's service proxies: it starts one proxy for
//! each service, keeps the registry of live connections, and says which
//! connections to close.

use vstd::prelude::*;
use vstd::string::*;
use std::collections::HashMap;
use crate::error::AppError;
use crate::gateway::config::{AppConfig, DEFAULT_SERVICE_PORT_END, DEFAULT_SERVICE_PORT_START};
use crate::gateway::service::proxy::GatewayServiceProxyVisitor;
use crate::gateway::service::proxy::{keys_of_user, lemma_keys_of_user, lemma_keys_of_user_distinct};
use crate::model::service::{Service, Transport};
use crate::proxy::event::{all_close, task_keys, ProxyEvent, ProxyExecutorEvent};
use crate::proxy::registry::{first_by_owner, ProxyKeyTable};
use crate::text::{append_decimal, append_joined, append_optional_id, decimal, joined};
use crate::text::optional_id_text;

verus! {

broadcast use vstd::std_specs::hash::group_hash_axioms;

/// What a manager holds, as mathematical values.
pub struct GatewayServiceMgrView {
    /// The host that clients are given for service proxies.
    pub gateway_service_host: Option<String>,
    /// The port of each started service proxy.
    pub service_ports: Map<u64, u16>,
    /// The started services, in the order in which they were started.
    pub services: Seq<Service>,
    /// The live connections: proxy key to service id.
    pub registry: Map<Seq<char>, u64>,
    /// The user of each live connection.
    pub users: Map<Seq<char>, u64>,
    /// The one port that all proxies share, when no range is configured.
    pub shared_service_port: Option<u16>,
    /// The first port of the range.
    pub first_service_port: u16,
    /// The port that the next new service gets.
    pub next_service_port: int,
    /// The last port of the range.
    pub last_service_port: u16,
}

/// The port that a service not yet started would get: the shared one, or
/// the next of the range unless the range is used up.
pub open spec fn startup_port(v: GatewayServiceMgrView) -> Option<u16> {
    match v.shared_service_port {
        Some(port) => Some(port),
        None => if v.next_service_port > v.last_service_port {
            None
        } else {
            Some(v.next_service_port as u16)
        },
    }
}

/// What starting the proxy of `service` does to a manager, and the port it
/// answers with; no port when the range is used up.
pub open spec fn startup_spec(v: GatewayServiceMgrView, service: Service) -> (
    GatewayServiceMgrView,
    Option<u16>,
) {
    if v.service_ports.contains_key(service.service_id) {
        (v, Some(v.service_ports[service.service_id]))
    } else {
        match startup_port(v) {
            None => (v, None),
            Some(port) => (
                GatewayServiceMgrView {
                    service_ports: v.service_ports.insert(service.service_id, port),
                    services: v.services.push(service),
                    next_service_port: if v.shared_service_port is None {
                        v.next_service_port + 1
                    } else {
                        v.next_service_port
                    },
                    ..v
                },
                Some(port),
            ),
        }
    }
}

/// The manager after the connection under `key` is reported closed.
pub open spec fn closed_spec(v: GatewayServiceMgrView, key: Seq<char>) -> GatewayServiceMgrView {
    GatewayServiceMgrView { registry: v.registry.remove(key), users: v.users.remove(key), ..v }
}

/// The manager after each of the events was handled, in order: a
/// connection reported closed is let go of, a message changes nothing.
pub open spec fn events_handled(v: GatewayServiceMgrView, events: Seq<ProxyEvent>) -> GatewayServiceMgrView
    decreases events.len(),
{
    if events.len() == 0 {
        v
    } else {
        let before = events_handled(v, events.drop_last());
        match events.last() {
            ProxyEvent::Closed(key) => closed_spec(before, key@),
            ProxyEvent::Message(_, _, _) => before,
        }
    }
}

/// Whether the connection under `key` is one of `user_id`, if a user is
/// named, and to `service_id`, if a service is named.
pub open spec fn selected(
    v: GatewayServiceMgrView,
    key: Seq<char>,
    user_id: Option<u64>,
    service_id: Option<u64>,
) -> bool {
    &&& v.registry.contains_key(key)
    &&& service_id is None || service_id == Some(v.registry[key])
    &&& user_id is None || user_id == Some(v.users[key])
}

/// The text that reports that the connections of one service proxy could
/// not be shut down.
pub open spec fn failure_text(service_id: u64, user_id: Option<u64>, cause: Seq<char>) -> Seq<char> {
    "Failed shutting down service proxy connection: svc_id="@ + decimal(service_id as nat)
        + ", user_id="@ + optional_id_text(user_id) + ", err="@ + cause
}

/// The reports of the close tasks that could not be sent, one for each
/// service that has such a task: the service is the one that the registry
/// names for the task's proxy key, and the cause is that of the first of
/// its tasks that failed. The reports stand in the order of those tasks.
pub open spec fn failure_lines(
    registry: Map<Seq<char>, u64>,
    user_id: Option<u64>,
    failed: Seq<(String, AppError)>,
) -> Seq<Seq<char>> {
    let found = first_by_owner(registry, failed.map_values(|f: (String, AppError)| f.0@));
    Seq::new(
        found.len(),
        |j: int| failure_text(found[j].0, user_id, failed[found[j].1].1.text()),
    )
}

/// A copy of an optional host.
fn clone_host(host: &Option<String>) -> (copy: Option<String>)
    ensures
        copy == *host,
{
    match host {
        Some(h) => Some(h.clone()),
        None => None,
    }
}

/// Manages the service proxies of the gateway.
pub struct GatewayServiceMgr {
    gateway_service_host: Option<String>,
    service_ports: HashMap<u64, u16>,
    service_proxy_visitors: Vec<GatewayServiceProxyVisitor>,
    services_by_proxy_key: ProxyKeyTable,
    shared_service_port: Option<u16>,
    first_service_port: u16,
    next_service_port: u32,
    last_service_port: u16,
}

impl GatewayServiceMgr {
    /// The number of started proxies.
    pub closed spec fn count(&self) -> int {
        self.service_proxy_visitors.len() as int
    }

    /// The service id of the proxy at place `i`.
    pub closed spec fn sid_at(&self, i: int) -> u64 {
        self.service_proxy_visitors[i].service().service_id
    }

    /// Whether the proxy at place `i` holds a connection under `key`.
    pub closed spec fn holds_at(&self, i: int, key: Seq<char>) -> bool {
        self.service_proxy_visitors[i].proxies().contains_key(key)
    }

    /// Whether a proxy for `service_id` is started.
    pub closed spec fn has_service(&self, service_id: u64) -> bool {
        exists|i: int| 0 <= i < self.count() && #[trigger] self.sid_at(i) == service_id
    }

    /// The place of the proxy for `service_id`.
    pub closed spec fn place_of(&self, service_id: u64) -> int {
        choose|i: int| 0 <= i < self.count() && #[trigger] self.sid_at(i) == service_id
    }

    /// Whether the proxy of `service_id` holds a connection under `key`.
    pub closed spec fn holds(&self, service_id: u64, key: Seq<char>) -> bool {
        exists|i: int|
            0 <= i < self.count() && #[trigger] self.sid_at(i) == service_id && self.holds_at(
                i,
                key,
            )
    }

    /// What the manager holds.
    pub closed spec fn view(&self) -> GatewayServiceMgrView {
        GatewayServiceMgrView {
            gateway_service_host: self.gateway_service_host,
            service_ports: self.service_ports@,
            services: Seq::new(
                self.count() as nat,
                |i: int| self.service_proxy_visitors[i].service(),
            ),
            registry: self.services_by_proxy_key@,
            users: Map::new(
                |k: Seq<char>| self.services_by_proxy_key@.contains_key(k),
                |k: Seq<char>|
                    self.service_proxy_visitors[self.place_of(
                        self.services_by_proxy_key@[k],
                    )].proxies()[k],
            ),
            shared_service_port: self.shared_service_port,
            first_service_port: self.first_service_port,
            next_service_port: self.next_service_port as int,
            last_service_port: self.last_service_port,
        }
    }

    /// The manager is consistent: each service has one proxy, with its
    /// port on record, the manager's host, and no request to shut down;
    /// each live connection is in the registry and in the connection set of
    /// its service's proxy and nowhere else; and with a range of ports, the
    /// proxies have its first ports, one each, in the order in which they
    /// were started.
    pub closed spec fn wf(&self) -> bool {
        &&& self.services_by_proxy_key.wf()
        &&& forall|i: int| 0 <= i < self.count() ==> (#[trigger] self.service_proxy_visitors[i]).wf()
        &&& forall|i: int, j: int|
            0 <= i < self.count() && 0 <= j < self.count() && #[trigger] self.sid_at(i)
                == #[trigger] self.sid_at(j) ==> i == j
        &&& forall|sid: u64| #[trigger]
            self.service_ports@.contains_key(sid) <==> self.has_service(sid)
        &&& forall|i: int|
            0 <= i < self.count() ==> self.service_ports@[#[trigger] self.sid_at(i)]
                == self.service_proxy_visitors[i].port()
        &&& forall|i: int, key: Seq<char>|
            0 <= i < self.count() && #[trigger] self.holds_at(i, key)
                ==> self.services_by_proxy_key@.contains_key(key)
                && self.services_by_proxy_key@[key] == self.sid_at(i)
        &&& forall|key: Seq<char>| #[trigger]
            self.services_by_proxy_key@.contains_key(key) ==> self.holds(
                self.services_by_proxy_key@[key],
                key,
            )
        &&& forall|i: int|
            0 <= i < self.count() ==> (#[trigger] self.service_proxy_visitors[i]).host()
                == self.gateway_service_host && !self.service_proxy_visitors[i].shutdown_flag()
        &&& self.next_service_port <= 65536
        &&& self.shared_service_port is None ==> {
            &&& self.next_service_port == self.first_service_port + self.count()
            &&& self.count() > 0 ==> self.next_service_port <= self.last_service_port + 1
            &&& forall|i: int|
                0 <= i < self.count() ==> (#[trigger] self.service_proxy_visitors[i]).port()
                    == self.first_service_port + i
        }
    }

    /// A change to the connections that keeps the proxies and their ports,
    /// and keeps the registry and the connection sets in step, leaves the
    /// manager consistent, and changes nothing of it but the connections.
    proof fn lemma_frame(&self, before: &Self)
        requires
            before.wf(),
            self.count() == before.count(),
            self.gateway_service_host == before.gateway_service_host,
            self.service_ports == before.service_ports,
            self.shared_service_port == before.shared_service_port,
            self.first_service_port == before.first_service_port,
            self.next_service_port == before.next_service_port,
            self.last_service_port == before.last_service_port,
            self.services_by_proxy_key.wf(),
            forall|i: int|
                0 <= i < self.count() ==> {
                    let now = #[trigger] self.service_proxy_visitors[i];
                    let then = before.service_proxy_visitors[i];
                    &&& now.wf()
                    &&& now.service() == then.service()
                    &&& now.port() == then.port()
                    &&& now.host() == then.host()
                    &&& now.shutdown_flag() == then.shutdown_flag()
                },
            forall|i: int, key: Seq<char>|
                0 <= i < self.count() && #[trigger] self.holds_at(i, key)
                    ==> self.services_by_proxy_key@.contains_key(key)
                    && self.services_by_proxy_key@[key] == self.sid_at(i),
            forall|key: Seq<char>| #[trigger]
                self.services_by_proxy_key@.contains_key(key) ==> self.holds(
                    self.services_by_proxy_key@[key],
                    key,
                ),
        ensures
            self.wf(),
            forall|i: int| 0 <= i < self.count() ==> self.sid_at(i) == before.sid_at(i),
            self@ == (GatewayServiceMgrView {
                registry: self@.registry,
                users: self@.users,
                ..before@
            }),
    {
        assert forall|i: int| 0 <= i < self.count() implies self.sid_at(i) == before.sid_at(
            i,
        ) by {
            assert(self.service_proxy_visitors[i].service()
                == before.service_proxy_visitors[i].service());
        }
        assert forall|sid: u64| self.has_service(sid) <==> before.has_service(sid) by {
            if before.has_service(sid) {
                assert(self.sid_at(before.place_of(sid)) == sid);
            }
            if self.has_service(sid) {
                assert(before.sid_at(self.place_of(sid)) == sid);
            }
        }
        assert forall|i: int, j: int|
            0 <= i < self.count() && 0 <= j < self.count() && #[trigger] self.sid_at(i)
                == #[trigger] self.sid_at(j) implies i == j by {
            assert(before.sid_at(i) == before.sid_at(j));
        }
        assert forall|i: int| 0 <= i < self.count() implies self.service_ports@[#[trigger] self.sid_at(
            i,
        )] == self.service_proxy_visitors[i].port() by {
            assert(before.service_ports@[before.sid_at(i)]
                == before.service_proxy_visitors[i].port());
            assert(self.service_proxy_visitors[i].port()
                == before.service_proxy_visitors[i].port());
        }
        assert forall|i: int| 0 <= i < self.count() implies (
        #[trigger] self.service_proxy_visitors[i]).host() == self.gateway_service_host
            && !self.service_proxy_visitors[i].shutdown_flag() by {
            assert(before.service_proxy_visitors[i].host() == before.gateway_service_host
                && !before.service_proxy_visitors[i].shutdown_flag());
        }
        if self.shared_service_port is None {
            assert forall|i: int| 0 <= i < self.count() implies (
            #[trigger] self.service_proxy_visitors[i]).port() == self.first_service_port
                + i by {
                assert(before.service_proxy_visitors[i].port() == before.first_service_port + i);
            }
        }
        assert(self@.services =~= before@.services);
    }

    /// In a consistent manager the proxy at place `i` is the one found under its service id.
    proof fn lemma_place(&self, i: int)
        requires
            self.wf(),
            0 <= i < self.count(),
        ensures
            self.has_service(self.sid_at(i)),
            self.place_of(self.sid_at(i)) == i,
    {
    }

    /// In a consistent manager a registered connection is held by the proxy
    /// of its service.
    proof fn lemma_registered(&self, key: Seq<char>)
        requires
            self.wf(),
            self.services_by_proxy_key@.contains_key(key),
        ensures
            self.has_service(self.services_by_proxy_key@[key]),
            self.holds_at(self.place_of(self.services_by_proxy_key@[key]), key),
            0 <= self.place_of(self.services_by_proxy_key@[key]) < self.count(),
    {
        let sid = self.services_by_proxy_key@[key];
        assert(self.holds(sid, key));
        let i = choose|i: int|
            0 <= i < self.count() && #[trigger] self.sid_at(i) == sid && self.holds_at(i, key);
        self.lemma_place(i);
    }

    /// Every live connection is held by the proxy of one service, the one
    /// that the registry names; a key that is not registered is held by none.
    pub proof fn lemma_one_entry_per_live_key(&self, key: Seq<char>)
        requires
            self.wf(),
        ensures
            forall|service_id: u64| #[trigger]
                self.holds(service_id, key) <==> (self@.registry.contains_key(key)
                    && self@.registry[key] == service_id),
            self@.users.contains_key(key) <==> self@.registry.contains_key(key),
    {
        assert forall|service_id: u64| #[trigger]
            self.holds(service_id, key) <==> (self@.registry.contains_key(key)
                && self@.registry[key] == service_id) by {
            if self.holds(service_id, key) {
                let i = choose|i: int|
                    0 <= i < self.count() && #[trigger] self.sid_at(i) == service_id
                        && self.holds_at(i, key);
                assert(self.holds_at(i, key));
            }
        }
    }

    /// A manager for the given configuration, with no proxy started: with
    /// the configured range of ports, or else sharing the gateway's port.
    pub fn new(app_config: &AppConfig) -> (mgr: GatewayServiceMgr)
        ensures
            mgr.wf(),
            mgr@ == (GatewayServiceMgrView {
                gateway_service_host: app_config.gateway_service_host,
                service_ports: Map::empty(),
                services: Seq::empty(),
                registry: Map::empty(),
                users: Map::empty(),
                shared_service_port: match app_config.gateway_service_ports {
                    Some(_) => None,
                    None => Some(app_config.server_port),
                },
                first_service_port: match app_config.gateway_service_ports {
                    Some((port_start, _)) => port_start,
                    None => DEFAULT_SERVICE_PORT_START,
                },
                next_service_port: match app_config.gateway_service_ports {
                    Some((port_start, _)) => port_start as int,
                    None => DEFAULT_SERVICE_PORT_START as int,
                },
                last_service_port: match app_config.gateway_service_ports {
                    Some((_, port_end)) => port_end,
                    None => DEFAULT_SERVICE_PORT_END,
                },
            }),
    {
        let mut first_service_port = DEFAULT_SERVICE_PORT_START;
        let mut last_service_port = DEFAULT_SERVICE_PORT_END;
        let mut shared_service_port = None;
        match &app_config.gateway_service_ports {
            Some((port_start, port_end)) => {
                first_service_port = *port_start;
                last_service_port = *port_end;
            },
            None => {
                shared_service_port = Some(app_config.server_port);
            },
        };
        let mgr = GatewayServiceMgr {
            gateway_service_host: clone_host(&app_config.gateway_service_host),
            service_ports: HashMap::new(),
            service_proxy_visitors: Vec::new(),
            services_by_proxy_key: ProxyKeyTable::new(),
            shared_service_port,
            first_service_port,
            next_service_port: first_service_port as u32,
            last_service_port,
        };
        proof {
            assert(mgr@.services =~= Seq::<Service>::empty());
            assert(mgr@.users =~= Map::<Seq<char>, u64>::empty());
            assert(mgr@.service_ports =~= Map::<u64, u16>::empty());
        }
        mgr
    }

    /// The service of the live connection under `proxy_key`, if there is one.
    pub fn get_service_id_by_proxy_key(&self, proxy_key: &str) -> (service_id: Option<u64>)
        requires
            self.wf(),
        ensures
            service_id == (if self@.registry.contains_key(proxy_key@) {
                Some(self@.registry[proxy_key@])
            } else {
                None
            }),
    {
        self.services_by_proxy_key.get(proxy_key)
    }

    /// The started proxies, in the order in which they were started.
    pub fn get_service_proxies(&self) -> (proxies: &Vec<GatewayServiceProxyVisitor>)
        requires
            self.wf(),
        ensures
            proxies@.len() == self@.services.len(),
            forall|i: int|
                0 <= i < proxies@.len() ==> (#[trigger] proxies@[i]).service() == self@.services[i]
                    && proxies@[i].port() == self@.service_ports[self@.services[i].service_id]
                    && proxies@[i].host() == self@.gateway_service_host
                    && !proxies@[i].shutdown_flag(),
            forall|i: int, key: Seq<char>|
                0 <= i < proxies@.len() ==> (#[trigger] proxies@[i].proxies().contains_key(key))
                    == self.holds(self@.services[i].service_id, key),
    {
        proof {
            assert forall|i: int| 0 <= i < self.count() implies (
            #[trigger] self.service_proxy_visitors[i]).service() == self@.services[i]
                && self.service_proxy_visitors[i].port()
                == self@.service_ports[self@.services[i].service_id]
                && self.service_proxy_visitors[i].host() == self@.gateway_service_host
                && !self.service_proxy_visitors[i].shutdown_flag() by {
                self.lemma_place(i);
                assert(self.service_ports@[self.sid_at(i)]
                    == self.service_proxy_visitors[i].port());
            }
            assert forall|i: int, key: Seq<char>| 0 <= i < self.count() implies (
            #[trigger] self.service_proxy_visitors[i].proxies().contains_key(key)) == self.holds(
                self@.services[i].service_id,
                key,
            ) by {
                if self.holds(self.sid_at(i), key) {
                    let j = choose|j: int|
                        0 <= j < self.count() && #[trigger] self.sid_at(j) == self.sid_at(i)
                            && self.holds_at(j, key);
                    assert(self.holds_at(j, key));
                }
                if self.service_proxy_visitors[i].proxies().contains_key(key) {
                    assert(self.holds_at(i, key));
                }
            }
        }
        &self.service_proxy_visitors
    }

    /// Where the proxy for `service_id` stands among the started ones.
    fn find_service(&self, service_id: u64) -> (found: Option<usize>)
        ensures
            match found {
                Some(i) => i < self.count() && self.sid_at(i as int) == service_id,
                None => !self.has_service(service_id),
            },
    {
        let mut i: usize = 0;
        while i < self.service_proxy_visitors.len()
            invariant
                i <= self.count(),
                forall|j: int| 0 <= j < i ==> #[trigger] self.sid_at(j) != service_id,
            decreases self.count() - i,
        {
            if self.service_proxy_visitors[i].get_service_id() == service_id {
                return Some(i);
            }
            i = i + 1;
        }
        None
    }

    /// The proxy for `service_id`, if it is started.
    pub fn get_service_proxy(&self, service_id: u64) -> (proxy: Option<&GatewayServiceProxyVisitor>)
        requires
            self.wf(),
        ensures
            proxy is Some <==> self@.service_ports.contains_key(service_id),
            proxy matches Some(p) ==> p.service().service_id == service_id && p.port()
                == self@.service_ports[service_id] && p.host() == self@.gateway_service_host
                && !p.shutdown_flag() && p.wf() && forall|key: Seq<char>| #[trigger]
                p.proxies().contains_key(key) <==> self.holds(service_id, key),
    {
        match self.find_service(service_id) {
            Some(i) => {
                proof {
                    self.lemma_place(i as int);
                    assert(self.service_ports@.contains_key(service_id));
                    assert forall|key: Seq<char>| #[trigger]
                        self.service_proxy_visitors[i as int].proxies().contains_key(key)
                            <==> self.holds(service_id, key) by {
                        if self.holds(service_id, key) {
                            let j = choose|j: int|
                                0 <= j < self.count() && #[trigger] self.sid_at(j) == service_id
                                    && self.holds_at(j, key);
                            assert(j == i);
                        }
                        if self.service_proxy_visitors[i as int].proxies().contains_key(key) {
                            assert(self.holds_at(i as int, key));
                        }
                    }
                }
                Some(&self.service_proxy_visitors[i])
            },
            None => None,
        }
    }

    /// Starts the proxy for `service` unless it is started already, and
    /// answers with the host and port that clients are to use. A service
    /// that is started keeps its port. A new one gets the shared port, or
    /// the next port of the range; when the range is used up the call
    /// fails and nothing changes.
    pub fn startup(&mut self, service: &Service) -> (result: Result<(Option<String>, u16), AppError>)
        requires
            old(self).wf(),
        ensures
            final(self).wf(),
            final(self)@ == startup_spec(old(self)@, *service).0,
            match result {
                Ok((host, port)) => host == old(self)@.gateway_service_host && startup_spec(
                    old(self)@,
                    *service,
                ).1 == Some(port),
                Err(err) => startup_spec(old(self)@, *service).1 is None && err.is_general(
                    "Service ports exhausted, please extend range"@,
                ),
            },
    {
        let service_id = service.service_id;
        let started = self.service_ports.get(&service_id);
        if let Some(service_port) = started {
            return Ok((clone_host(&self.gateway_service_host), *service_port));
        }
        let ghost before = *self;
        let service_port: u16 = match self.shared_service_port {
            Some(port) => port,
            None => {
                if self.next_service_port > self.last_service_port as u32 {
                    return Err(AppError::general("Service ports exhausted, please extend range"));
                }
                let port = self.next_service_port as u16;
                self.next_service_port = self.next_service_port + 1;
                port
            },
        };
        let visitor = GatewayServiceProxyVisitor::new(
            service.clone(),
            clone_host(&self.gateway_service_host),
            service_port,
        );
        self.service_ports.insert(service_id, service_port);
        self.service_proxy_visitors.push(visitor);
        proof {
            let n = before.count();
            assert(self.count() == n + 1);
            assert(!before.has_service(service_id));
            assert forall|i: int| 0 <= i < n implies self.sid_at(i) == before.sid_at(i) by {}
            assert(self.sid_at(n) == service_id);
            assert forall|i: int, key: Seq<char>| 0 <= i < n implies self.holds_at(i, key)
                == before.holds_at(i, key) by {}
            assert forall|key: Seq<char>| !self.holds_at(n, key) by {}
            assert forall|sid: u64| self.has_service(sid) <==> (sid == service_id
                || before.has_service(sid)) by {
                if before.has_service(sid) {
                    let i = before.place_of(sid);
                    assert(self.sid_at(i) == sid);
                }
                if self.has_service(sid) {
                    let i = self.place_of(sid);
                    if i < n {
                        assert(before.sid_at(i) == sid);
                    }
                }
                if sid == service_id {
                    assert(self.sid_at(n) == sid);
                }
            }
            assert forall|i: int, j: int|
                0 <= i < self.count() && 0 <= j < self.count() && #[trigger] self.sid_at(i)
                    == #[trigger] self.sid_at(j) implies i == j by {
                if i < n {
                    assert(before.sid_at(i) == self.sid_at(i));
                }
                if j < n {
                    assert(before.sid_at(j) == self.sid_at(j));
                }
            }
            assert forall|i: int| 0 <= i < self.count() implies self.service_ports@[#[trigger] self.sid_at(
                i,
            )] == self.service_proxy_visitors[i].port() by {
                if i < n {
                    assert(before.sid_at(i) == self.sid_at(i));
                    assert(before.has_service(self.sid_at(i)));
                }
            }
            assert forall|key: Seq<char>| #[trigger]
                self.services_by_proxy_key@.contains_key(key) implies self.holds(
                self.services_by_proxy_key@[key],
                key,
            ) by {
                before.lemma_registered(key);
                let i = before.place_of(before.services_by_proxy_key@[key]);
                assert(self.sid_at(i) == before.sid_at(i));
                assert(self.holds_at(i, key));
            }
            assert forall|i: int, key: Seq<char>|
                0 <= i < self.count() && #[trigger] self.holds_at(i, key)
                    implies self.services_by_proxy_key@.contains_key(key)
                && self.services_by_proxy_key@[key] == self.sid_at(i) by {
                if i < n {
                    assert(before.holds_at(i, key));
                }
            }
            assert forall|i: int| 0 <= i < self.count() implies (
            #[trigger] self.service_proxy_visitors[i]).wf() by {
                if i < n {
                    assert(before.service_proxy_visitors[i].wf());
                }
            }
            if self.shared_service_port is None {
                assert forall|i: int| 0 <= i < self.count() implies (
                #[trigger] self.service_proxy_visitors[i]).port() == self.first_service_port
                    + i by {
                    if i < n {
                        assert(before.service_proxy_visitors[i].port() == before.first_service_port
                            + i);
                    }
                }
            }
            assert forall|i: int| 0 <= i < self.count() implies (
            #[trigger] self.service_proxy_visitors[i]).host() == self.gateway_service_host
                && !self.service_proxy_visitors[i].shutdown_flag() by {
                if i < n {
                    assert(before.service_proxy_visitors[i].host() == before.gateway_service_host
                        && !before.service_proxy_visitors[i].shutdown_flag());
                }
            }
            assert(self.wf());
            let wanted = startup_spec(before@, *service).0;
            assert(self@.services =~= wanted.services);
            assert(self@.service_ports =~= wanted.service_ports);
            assert forall|k: Seq<char>| #[trigger]
                self@.users.contains_key(k) implies self@.users[k] == before@.users[k] by {
                before.lemma_registered(k);
                self.lemma_registered(k);
                let i = before.place_of(before.services_by_proxy_key@[k]);
                let j = self.place_of(self.services_by_proxy_key@[k]);
                assert(self.sid_at(i) == before.sid_at(i));
                assert(i == j);
            }
            assert(self@.users =~= wanted.users);
            assert(self@ == wanted);
        }
        Ok((clone_host(&self.gateway_service_host), service_port))
    }

    /// Whether `user_id` has a live connection to `service_id`.
    pub fn has_proxy_for_user_and_service(&self, user_id: u64, service_id: u64) -> (found: bool)
        requires
            self.wf(),
        ensures
            found == exists|key: Seq<char>| #[trigger]
                selected(self@, key, Some(user_id), Some(service_id)),
    {
        match self.find_service(service_id) {
            Some(i) => {
                let found = self.service_proxy_visitors[i].has_proxy_for_user(user_id);
                proof {
                    self.lemma_place(i as int);
                    let visitor = self.service_proxy_visitors[i as int];
                    if found {
                        let key = choose|key: Seq<char>| #[trigger]
                            visitor.proxies().contains_key(key) && visitor.proxies()[key]
                                == user_id;
                        assert(self.holds_at(i as int, key));
                        assert(selected(self@, key, Some(user_id), Some(service_id)));
                    }
                    if exists|key: Seq<char>| #[trigger]
                        selected(self@, key, Some(user_id), Some(service_id)) {
                        let key = choose|key: Seq<char>| #[trigger]
                            selected(self@, key, Some(user_id), Some(service_id));
                        self.lemma_registered(key);
                        assert(visitor.proxies().contains_key(key) && visitor.proxies()[key]
                            == user_id);
                    }
                }
                found
            },
            None => {
                proof {
                    if exists|key: Seq<char>| #[trigger]
                        selected(self@, key, Some(user_id), Some(service_id)) {
                        let key = choose|key: Seq<char>| #[trigger]
                            selected(self@, key, Some(user_id), Some(service_id));
                        self.lemma_registered(key);
                    }
                }
                false
            },
        }
    }

    /// Whether the proxy at place `i` holds a connection under `key` that
    /// is one of `user_id`, if a user is named, and the proxy is that of
    /// `service_id`, if a service is named.
    closed spec fn chosen_at(
        &self,
        i: int,
        key: Seq<char>,
        user_id: Option<u64>,
        service_id: Option<u64>,
    ) -> bool {
        &&& service_id is None || service_id == Some(self.sid_at(i))
        &&& self.holds_at(i, key)
        &&& user_id is None || user_id == Some(self.service_proxy_visitors[i].proxies()[key])
    }

    /// The tasks that close the live connections of `user_id`, if a user
    /// is named, to `service_id`, if a service is named: one task for each
    /// such connection and none for any other. Nothing is let go of: each
    /// connection stays on record until it is reported closed.
    pub fn shutdown_connections(&self, user_id: Option<u64>, service_id: Option<u64>) -> (tasks: Vec<
        ProxyExecutorEvent,
    >)
        requires
            self.wf(),
        ensures
            all_close(tasks@),
            task_keys(tasks@).no_duplicates(),
            forall|key: Seq<char>| #[trigger]
                task_keys(tasks@).contains(key) <==> selected(self@, key, user_id, service_id),
    {
        let mut tasks: Vec<ProxyExecutorEvent> = Vec::new();
        let mut i: usize = 0;
        while i < self.service_proxy_visitors.len()
            invariant
                self.wf(),
                i <= self.count(),
                all_close(tasks@),
                task_keys(tasks@).no_duplicates(),
                forall|key: Seq<char>| #[trigger]
                    task_keys(tasks@).contains(key) <==> exists|j: int|
                        0 <= j < i && #[trigger] self.chosen_at(j, key, user_id, service_id),
            decreases self.count() - i,
        {
            let visitor = &self.service_proxy_visitors[i];
            let take = match service_id {
                None => true,
                Some(id) => id == visitor.get_service_id(),
            };
            if take {
                let ghost before = tasks@;
                let mut more = visitor.shutdown_connections(user_id);
                let ghost added = more@;
                tasks.append(&mut more);
                proof {
                    visitor.lemma_listing();
                    lemma_keys_of_user_distinct(visitor.keys(), visitor.users(), user_id);
                    assert(tasks@ =~= before + added);
                    assert(task_keys(tasks@) =~= task_keys(before) + task_keys(added));
                    assert forall|key: Seq<char>| #[trigger]
                        task_keys(added).contains(key) <==> self.chosen_at(
                            i as int,
                            key,
                            user_id,
                            service_id,
                        ) by {
                        lemma_keys_of_user(visitor.keys(), visitor.users(), user_id, key);
                        if task_keys(added).contains(key) {
                            let at = choose|at: int|
                                0 <= at < visitor.keys().len() && #[trigger] visitor.keys()[at]
                                    == key && (user_id is None || user_id == Some(
                                    visitor.users()[at],
                                ));
                            assert(visitor.proxies().contains_key(visitor.keys()[at]));
                        }
                        if self.chosen_at(i as int, key, user_id, service_id) {
                            assert(visitor.keys().contains(key));
                            let at = choose|at: int|
                                0 <= at < visitor.keys().len() && visitor.keys()[at] == key;
                            assert(visitor.proxies()[visitor.keys()[at]] == visitor.users()[at]);
                        }
                    }
                    assert forall|key: Seq<char>| #[trigger]
                        task_keys(tasks@).contains(key) <==> exists|j: int|
                            0 <= j < i + 1 && #[trigger] self.chosen_at(
                                j,
                                key,
                                user_id,
                                service_id,
                            ) by {
                        let all = task_keys(tasks@);
                        if all.contains(key) {
                            let at = choose|at: int| 0 <= at < all.len() && all[at] == key;
                            if at < task_keys(before).len() {
                                assert(task_keys(before)[at] == key);
                                assert(task_keys(before).contains(key));
                                let j = choose|j: int|
                                    0 <= j < i && #[trigger] self.chosen_at(
                                        j,
                                        key,
                                        user_id,
                                        service_id,
                                    );
                                assert(self.chosen_at(j, key, user_id, service_id));
                            } else {
                                assert(task_keys(added)[at - task_keys(before).len()] == key);
                                assert(task_keys(added).contains(key));
                                assert(self.chosen_at(i as int, key, user_id, service_id));
                            }
                        }
                        if exists|j: int|
                            0 <= j < i + 1 && #[trigger] self.chosen_at(
                                j,
                                key,
                                user_id,
                                service_id,
                            ) {
                            let j = choose|j: int|
                                0 <= j < i + 1 && #[trigger] self.chosen_at(
                                    j,
                                    key,
                                    user_id,
                                    service_id,
                                );
                            if j < i {
                                assert(task_keys(before).contains(key));
                                let at = choose|at: int|
                                    0 <= at < task_keys(before).len() && task_keys(before)[at]
                                        == key;
                                assert(all[at] == key);
                            } else {
                                assert(task_keys(added).contains(key));
                                let at = choose|at: int|
                                    0 <= at < task_keys(added).len() && task_keys(added)[at]
                                        == key;
                                assert(all[task_keys(before).len() + at] == key);
                            }
                        }
                    }
                    assert(task_keys(tasks@).no_duplicates()) by {
                        let all = task_keys(tasks@);
                        let old_len = task_keys(before).len() as int;
                        assert forall|a: int, b: int|
                            0 <= a < all.len() && 0 <= b < all.len() && a != b implies all[a]
                            != all[b] by {
                            if a < old_len && b < old_len {
                                assert(task_keys(before)[a] != task_keys(before)[b]);
                            } else if a >= old_len && b >= old_len {
                                assert(task_keys(added)[a - old_len] != task_keys(added)[b
                                    - old_len]);
                            } else {
                                let (lo, hi) = if a < old_len {
                                    (a, b)
                                } else {
                                    (b, a)
                                };
                                let key = all[lo];
                                assert(task_keys(before)[lo] == key);
                                assert(task_keys(before).contains(key));
                                let j = choose|j: int|
                                    0 <= j < i && #[trigger] self.chosen_at(
                                        j,
                                        key,
                                        user_id,
                                        service_id,
                                    );
                                assert(self.holds_at(j, key));
                                if all[hi] == key {
                                    assert(task_keys(added)[hi - old_len] == key);
                                    assert(task_keys(added).contains(key));
                                    assert(self.chosen_at(i as int, key, user_id, service_id));
                                    assert(self.holds_at(i as int, key));
                                    assert(self.sid_at(j) == self.sid_at(i as int));
                                }
                            }
                        }
                    }
                    assert forall|k: int| 0 <= k < tasks@.len() implies (#[trigger] tasks@[k])
                        is Close by {
                        if k < before.len() {
                            assert(before[k] is Close);
                        } else {
                            assert(added[k - before.len()] is Close);
                        }
                    }
                }
            } else {
                proof {
                    assert forall|key: Seq<char>| #[trigger]
                        task_keys(tasks@).contains(key) <==> exists|j: int|
                            0 <= j < i + 1 && #[trigger] self.chosen_at(
                                j,
                                key,
                                user_id,
                                service_id,
                            ) by {
                        if exists|j: int|
                            0 <= j < i + 1 && #[trigger] self.chosen_at(
                                j,
                                key,
                                user_id,
                                service_id,
                            ) {
                            let j = choose|j: int|
                                0 <= j < i + 1 && #[trigger] self.chosen_at(
                                    j,
                                    key,
                                    user_id,
                                    service_id,
                                );
                            assert(j < i);
                        }
                        if task_keys(tasks@).contains(key) {
                            let j = choose|j: int|
                                0 <= j < i && #[trigger] self.chosen_at(
                                    j,
                                    key,
                                    user_id,
                                    service_id,
                                );
                            assert(0 <= j < i + 1 && self.chosen_at(j, key, user_id, service_id));
                        }
                    }
                }
            }
            i = i + 1;
        }
        proof {
            assert forall|key: Seq<char>| #[trigger]
                task_keys(tasks@).contains(key) <==> selected(
                    self@,
                    key,
                    user_id,
                    service_id,
                ) by {
                if task_keys(tasks@).contains(key) {
                    let j = choose|j: int|
                        0 <= j < i && #[trigger] self.chosen_at(j, key, user_id, service_id);
                    assert(self.holds_at(j, key));
                    self.lemma_place(j);
                }
                if selected(self@, key, user_id, service_id) {
                    self.lemma_registered(key);
                    let j = self.place_of(self.services_by_proxy_key@[key]);
                    assert(self.chosen_at(j, key, user_id, service_id));
                }
            }
        }
        tasks
    }

    /// The text that reports that the connections of one service proxy
    /// could not be shut down.
    pub fn shutdown_failure(service_id: u64, user_id: Option<u64>, err: &AppError) -> (text: String)
        ensures
            text@ == "Failed shutting down service proxy connection: svc_id="@ + decimal(
                service_id as nat,
            ) + ", user_id="@ + optional_id_text(user_id) + ", err="@ + err.text(),
    {
        let mut text = String::from_str("Failed shutting down service proxy connection: svc_id=");
        append_decimal(&mut text, service_id);
        text.append(", user_id=");
        append_optional_id(&mut text, user_id);
        text.append(", err=");
        let cause = err.to_string();
        text.append(cause.as_str());
        text
    }

    /// The outcome of shutting connections down, given the reports of what
    /// failed: success when nothing did, else one error that holds them all.
    pub fn shutdown_result(user_id: Option<u64>, errors: &Vec<String>) -> (result: Result<
        (),
        AppError,
    >)
        ensures
            result is Ok <==> errors@.len() == 0,
            result matches Err(err) ==> err.is_general(
                "Error shutting down services: user_id="@ + optional_id_text(user_id)
                    + ", err(s)="@ + joined(errors@.map_values(|t: String| t@)),
            ),
    {
        if errors.len() == 0 {
            return Ok(());
        }
        let mut message = String::from_str("Error shutting down services: user_id=");
        append_optional_id(&mut message, user_id);
        message.append(", err(s)=");
        append_joined(&mut message, errors);
        Err(AppError::General(message))
    }

    /// The outcome of shutting connections down, given the close tasks that
    /// could not be sent, each by its proxy key and with its cause: success
    /// when there is none for a connection on record, else one error that
    /// names each service that has such a task, once.
    pub fn shutdown_outcome(&self, user_id: Option<u64>, failed: &Vec<(String, AppError)>) -> (result:
        Result<(), AppError>)
        requires
            self.wf(),
        ensures
            result is Ok <==> failure_lines(self@.registry, user_id, failed@).len() == 0,
            result matches Err(err) ==> err.is_general(
                "Error shutting down services: user_id="@ + optional_id_text(user_id)
                    + ", err(s)="@ + joined(failure_lines(self@.registry, user_id, failed@)),
            ),
    {
        let mut keys: Vec<String> = Vec::new();
        let mut i: usize = 0;
        while i < failed.len()
            invariant
                i <= failed.len(),
                keys@.len() == i,
                forall|j: int| 0 <= j < i ==> (#[trigger] keys@[j])@ == failed@[j].0@,
            decreases failed.len() - i,
        {
            keys.push(failed[i].0.clone());
            i = i + 1;
        }
        assert(keys@.map_values(|k: String| k@) =~= failed@.map_values(
            |f: (String, AppError)| f.0@,
        ));
        let found = self.services_by_proxy_key.first_by_owner(&keys);
        let ghost wanted = failure_lines(self@.registry, user_id, failed@);
        let mut errors: Vec<String> = Vec::new();
        let mut j: usize = 0;
        while j < found.len()
            invariant
                j <= found.len(),
                found@.len() == wanted.len(),
                errors@.len() == j,
                forall|k: int|
                    0 <= k < found@.len() ==> (#[trigger] found@[k]).1 < failed@.len()
                        && wanted[k] == failure_text(
                        found@[k].0,
                        user_id,
                        failed@[found@[k].1 as int].1.text(),
                    ),
                forall|k: int| 0 <= k < j ==> (#[trigger] errors@[k])@ == wanted[k],
            decreases found.len() - j,
        {
            let (service_id, at) = found[j];
            errors.push(Self::shutdown_failure(service_id, user_id, &failed[at].1));
            j = j + 1;
        }
        assert(errors@.map_values(|t: String| t@) =~= wanted);
        Self::shutdown_result(user_id, &errors)
    }

    /// Takes note that the connection under `proxy_key` is closed: the
    /// proxy of its service lets go of it, then the registry does. A key
    /// that is not registered changes nothing.
    pub fn on_closed_proxy(&mut self, proxy_key: &str)
        requires
            old(self).wf(),
        ensures
            final(self).wf(),
            final(self)@ == closed_spec(old(self)@, proxy_key@),
            forall|service_id: u64| !final(self).holds(service_id, proxy_key@),
    {
        let ghost before = *self;
        let ghost key = proxy_key@;
        let service_id = match self.services_by_proxy_key.get(proxy_key) {
            Some(service_id) => service_id,
            None => {
                proof {
                    assert(self@.registry.remove(key) =~= self@.registry);
                    assert(self@.users.remove(key) =~= self@.users);
                    self.lemma_one_entry_per_live_key(key);
                }
                return ;
            },
        };
        proof {
            before.lemma_registered(key);
        }
        let at = match self.find_service(service_id) {
            Some(at) => at,
            None => {
                return ;
            },
        };
        proof {
            before.lemma_place(at as int);
        }
        self.service_proxy_visitors[at].remove_proxy_for_key(proxy_key);
        self.services_by_proxy_key.remove(proxy_key);
        proof {
            let a = at as int;
            assert(self.count() == before.count());
            assert forall|i: int| 0 <= i < self.count() implies self.sid_at(i) == before.sid_at(
                i,
            ) by {}
            assert forall|i: int, k: Seq<char>| 0 <= i < self.count() implies (self.holds_at(i, k)
                <==> (before.holds_at(i, k) && k != key)) by {
                if i != a && before.holds_at(i, k) && k == key {
                    assert(before.sid_at(i) == before.sid_at(a));
                }
            }
            assert forall|k: Seq<char>| #[trigger]
                self.services_by_proxy_key@.contains_key(k) implies self.holds(
                self.services_by_proxy_key@[k],
                k,
            ) by {
                before.lemma_registered(k);
                let i = before.place_of(before.services_by_proxy_key@[k]);
                assert(self.sid_at(i) == before.sid_at(i));
                assert(self.holds_at(i, k));
            }
            assert forall|i: int, k: Seq<char>|
                0 <= i < self.count() && #[trigger] self.holds_at(i, k)
                    implies self.services_by_proxy_key@.contains_key(k)
                && self.services_by_proxy_key@[k] == self.sid_at(i) by {
                assert(before.holds_at(i, k));
            }
            assert forall|i: int| 0 <= i < self.count() implies {
                let now = #[trigger] self.service_proxy_visitors[i];
                let then = before.service_proxy_visitors[i];
                &&& now.wf()
                &&& now.service() == then.service()
                &&& now.port() == then.port()
                &&& now.host() == then.host()
                &&& now.shutdown_flag() == then.shutdown_flag()
            } by {
                if i != a {
                    assert(before.service_proxy_visitors[i].wf());
                    assert(self.service_proxy_visitors[i] == before.service_proxy_visitors[i]);
                }
            }
            self.lemma_frame(&before);
            let wanted = closed_spec(before@, key);
            assert forall|k: Seq<char>| #[trigger]
                self@.users.contains_key(k) implies self@.users[k] == before@.users[k] by {
                before.lemma_registered(k);
                let i = before.place_of(before.services_by_proxy_key@[k]);
                self.lemma_place(i);
                assert(self.sid_at(i) == before.sid_at(i));
            }
            assert(self@.users =~= wanted.users);
            assert(self@ == wanted);
            self.lemma_one_entry_per_live_key(key);
        }
    }

    /// Handles what the tunnels reported, in order: a connection reported
    /// closed is let go of; a message changes nothing.
    pub fn poll_proxy_events(&mut self, proxy_events: &Vec<ProxyEvent>)
        requires
            old(self).wf(),
        ensures
            final(self).wf(),
            final(self)@ == events_handled(old(self)@, proxy_events@),
    {
        let mut i: usize = 0;
        assert(proxy_events@.take(0) =~= Seq::<ProxyEvent>::empty());
        while i < proxy_events.len()
            invariant
                i <= proxy_events.len(),
                self.wf(),
                self@ == events_handled(old(self)@, proxy_events@.take(i as int)),
            decreases proxy_events.len() - i,
        {
            proof {
                let next = proxy_events@.take(i + 1);
                assert(next.drop_last() =~= proxy_events@.take(i as int));
                assert(next.last() == proxy_events@[i as int]);
            }
            match &proxy_events[i] {
                ProxyEvent::Closed(proxy_key) => {
                    self.on_closed_proxy(proxy_key.as_str());
                },
                ProxyEvent::Message(_, _, _) => {},
            }
            i = i + 1;
        }
        assert(proxy_events@.take(i as int) =~= proxy_events@);
    }

    /// Takes a new connection of `user_id` to `service_id` on record under
    /// `proxy_key`, in the proxy of the service and in the registry, and
    /// answers with the task that opens its tunnel. Fails, and changes
    /// nothing, when no proxy is started for the service or the key is in use.
    pub fn open_proxy(&mut self, service_id: u64, user_id: u64, proxy_key: &str) -> (result: Result<
        ProxyExecutorEvent,
        AppError,
    >)
        requires
            old(self).wf(),
        ensures
            final(self).wf(),
            match result {
                Ok(task) => {
                    &&& old(self)@.service_ports.contains_key(service_id)
                    &&& !old(self)@.registry.contains_key(proxy_key@)
                    &&& final(self)@ == (GatewayServiceMgrView {
                        registry: old(self)@.registry.insert(proxy_key@, service_id),
                        users: old(self)@.users.insert(proxy_key@, user_id),
                        ..old(self)@
                    })
                    &&& task.key() == proxy_key@
                    &&& !(task is Close)
                    &&& exists|i: int|
                        0 <= i < old(self)@.services.len() && (#[trigger] old(self)@.services[i]).service_id == service_id && (task is OpenTcp
                            <==> old(self)@.services[i].transport == Transport::TCP)
                },
                Err(err) => {
                    &&& final(self)@ == old(self)@
                    &&& if !old(self)@.service_ports.contains_key(service_id) {
                        err.is_coded(425, "[E0425] Inactive service proxy"@)
                    } else {
                        old(self)@.registry.contains_key(proxy_key@) && err.is_general(
                            "Proxy key already in use: key="@ + proxy_key@,
                        )
                    }
                },
            },
    {
        let ghost before = *self;
        let ghost key = proxy_key@;
        let at = match self.find_service(service_id) {
            Some(at) => at,
            None => {
                return Err(
                    AppError::GenWithCodeAndMsg(
                        425,
                        String::from_str("[E0425] Inactive service proxy"),
                    ),
                );
            },
        };
        proof {
            before.lemma_place(at as int);
        }
        if self.services_by_proxy_key.contains_key(proxy_key) {
            return Err(AppError::general_with("Proxy key already in use: key=", proxy_key));
        }
        let transport = self.service_proxy_visitors[at].get_service().transport;
        proof {
            assert forall|i: int| 0 <= i < before.count() implies !before.holds_at(i, key) by {}
            assert(!before.holds_at(at as int, key));
        }
        let added = self.service_proxy_visitors[at].add_proxy(proxy_key, user_id);
        assert(added);
        assert(self.service_proxy_visitors[at as int].proxies()
            == before.service_proxy_visitors[at as int].proxies().insert(key, user_id));
        self.services_by_proxy_key.insert(proxy_key, service_id);
        proof {
            let a = at as int;
            assert(self.count() == before.count());
            assert forall|i: int| 0 <= i < self.count() implies self.sid_at(i) == before.sid_at(
                i,
            ) by {}
            assert forall|i: int, k: Seq<char>| 0 <= i < self.count() implies (self.holds_at(i, k)
                <==> (before.holds_at(i, k) || (i == a && k == key))) by {}
            assert forall|k: Seq<char>| #[trigger]
                self.services_by_proxy_key@.contains_key(k) implies self.holds(
                self.services_by_proxy_key@[k],
                k,
            ) by {
                if k == key {
                    assert(self.sid_at(a) == service_id);
                    assert(self.holds_at(a, k));
                } else {
                    before.lemma_registered(k);
                    let i = before.place_of(before.services_by_proxy_key@[k]);
                    assert(self.sid_at(i) == before.sid_at(i));
                    assert(self.holds_at(i, k));
                }
            }
            assert forall|i: int, k: Seq<char>|
                0 <= i < self.count() && #[trigger] self.holds_at(i, k)
                    implies self.services_by_proxy_key@.contains_key(k)
                && self.services_by_proxy_key@[k] == self.sid_at(i) by {
                if !(i == a && k == key) {
                    assert(before.holds_at(i, k));
                }
            }
            assert forall|i: int| 0 <= i < self.count() implies {
                let now = #[trigger] self.service_proxy_visitors[i];
                let then = before.service_proxy_visitors[i];
                &&& now.wf()
                &&& now.service() == then.service()
                &&& now.port() == then.port()
                &&& now.host() == then.host()
                &&& now.shutdown_flag() == then.shutdown_flag()
            } by {
                if i != a {
                    assert(before.service_proxy_visitors[i].wf());
                    assert(self.service_proxy_visitors[i] == before.service_proxy_visitors[i]);
                }
            }
            self.lemma_frame(&before);
            let wanted = GatewayServiceMgrView {
                registry: before@.registry.insert(key, service_id),
                users: before@.users.insert(key, user_id),
                ..before@
            };
            assert forall|k: Seq<char>| #[trigger]
                self@.users.contains_key(k) implies self@.users[k] == wanted.users[k] by {
                assert(self.service_proxy_visitors[a].proxies()
                    =~= before.service_proxy_visitors[a].proxies().insert(key, user_id));
                if k != key {
                    before.lemma_registered(k);
                    let i = before.place_of(before.services_by_proxy_key@[k]);
                    self.lemma_place(i);
                    assert(self.sid_at(i) == before.sid_at(i));
                    assert(self.services_by_proxy_key@[k] == before.services_by_proxy_key@[k]);
                    assert(self.place_of(self.services_by_proxy_key@[k]) == i);
                    if i != a {
                        assert(self.service_proxy_visitors[i] == before.service_proxy_visitors[i]);
                    }
                    assert(before@.users[k] == before.service_proxy_visitors[i].proxies()[k]);
                } else {
                    self.lemma_place(a);
                    assert(self.sid_at(a) == service_id);
                    assert(self.services_by_proxy_key@[k] == service_id);
                }
            }
            assert(self@.users =~= wanted.users);
            assert(self@ == wanted);
            assert(before@.services[a].service_id == service_id);
        }
        match transport {
            Transport::TCP => Ok(ProxyExecutorEvent::OpenTcp(String::from_str(proxy_key))),
            Transport::UDP => Ok(ProxyExecutorEvent::OpenUdp(String::from_str(proxy_key))),
        }
    }

    /// In a consistent manager the proxies that do not share a port have
    /// the first ports of the range, one each: the next new service gets
    /// the port after them, and no port is left exactly when as many
    /// services are started as the range has ports.
    pub proof fn lemma_port_range(&self)
        requires
            self.wf(),
            self@.shared_service_port is None,
        ensures
            self@.next_service_port == self@.first_service_port + self@.services.len(),
            self@.first_service_port <= self@.last_service_port ==> self@.services.len()
                <= self@.last_service_port - self@.first_service_port + 1,
            self@.first_service_port <= self@.last_service_port ==> (startup_port(self@) is None
                <==> self@.services.len() == self@.last_service_port - self@.first_service_port
                + 1),
            forall|i: int|
                0 <= i < self@.services.len() ==> self@.service_ports[(
                #[trigger] self@.services[i]).service_id] == self@.first_service_port + i,
    {
        assert forall|i: int| 0 <= i < self@.services.len() implies self@.service_ports[(
        #[trigger] self@.services[i]).service_id] == self@.first_service_port + i by {
            assert(self.service_ports@[self.sid_at(i)] == self.service_proxy_visitors[i].port());
        }
    }

    /// With a range of ports, no two services have the same port.
    pub proof fn lemma_ports_distinct(&self, a: u64, b: u64)
        requires
            self.wf(),
            self@.shared_service_port is None,
            self@.service_ports.contains_key(a),
            self@.service_ports.contains_key(b),
            a != b,
        ensures
            self@.service_ports[a] != self@.service_ports[b],
    {
        assert(self.has_service(a));
        assert(self.has_service(b));
        let i = self.place_of(a);
        let j = self.place_of(b);
        assert(self.service_ports@[self.sid_at(i)] == self.service_proxy_visitors[i].port());
        assert(self.service_ports@[self.sid_at(j)] == self.service_proxy_visitors[j].port());
    }
}

/// Starting a service twice answers with the same port both times, and the
/// second time changes nothing: no proxy is added.
pub proof fn lemma_startup_idempotent(v: GatewayServiceMgrView, service: Service)
    requires
        startup_spec(v, service).1 is Some,
    ensures
        startup_spec(startup_spec(v, service).0, service).1 == startup_spec(v, service).1,
        startup_spec(startup_spec(v, service).0, service).0 == startup_spec(v, service).0,
        startup_spec(startup_spec(v, service).0, service).0.services.len() == startup_spec(
            v,
            service,
        ).0.services.len(),
{
}

/// A service that is started keeps its port whatever is started after it.
pub proof fn lemma_startup_keeps_ports(v: GatewayServiceMgrView, service: Service, other: u64)
    requires
        v.service_ports.contains_key(other),
    ensures
        startup_spec(v, service).0.service_ports.contains_key(other),
        startup_spec(v, service).0.service_ports[other] == v.service_ports[other],
{
}

} // verus!
