//! The manager of the client's service proxies: it starts one proxy for
//! each service, keeps the registry of live connections, and says which
//! connections to close.

use vstd::prelude::*;
use vstd::string::*;
use std::collections::HashMap;
pub use crate::client::service::proxy::ProxyAddrs;
use crate::client::service::proxy::ClientServiceProxyVisitor;
use crate::error::AppError;
use crate::model::service::{Service, Transport};
use crate::proxy::event::{all_close, task_keys, ProxyEvent, ProxyExecutorEvent};
use crate::proxy::registry::{first_by_owner, ProxyKeyTable};
use crate::text::{append_decimal, append_joined, decimal, joined};

verus! {

broadcast use vstd::std_specs::hash::group_hash_axioms;

/// What a manager holds, as mathematical values.
pub struct ServiceMgrView {
    /// Where the proxy of each started service stands.
    pub service_addrs: Map<u64, ProxyAddrs>,
    /// The started services, in the order in which they were started.
    pub services: Seq<Service>,
    /// For each started service, in that order, whether its listener is
    /// asked to shut down.
    pub shutdown_requested: Seq<bool>,
    /// The live connections: proxy key to service id.
    pub registry: Map<Seq<char>, u64>,
}

/// What starting the proxy of `service` at `proxy_addrs` does to a manager,
/// and the addresses it answers with: those on record when the service is
/// started already.
pub open spec fn startup_spec(v: ServiceMgrView, service: Service, proxy_addrs: ProxyAddrs) -> (
    ServiceMgrView,
    ProxyAddrs,
) {
    if v.service_addrs.contains_key(service.service_id) {
        (v, v.service_addrs[service.service_id])
    } else {
        (
            ServiceMgrView {
                service_addrs: v.service_addrs.insert(service.service_id, proxy_addrs),
                services: v.services.push(service),
                shutdown_requested: v.shutdown_requested.push(false),
                ..v
            },
            proxy_addrs,
        )
    }
}

/// The manager after the connection under `key` is reported closed.
pub open spec fn closed_spec(v: ServiceMgrView, key: Seq<char>) -> ServiceMgrView {
    ServiceMgrView { registry: v.registry.remove(key), ..v }
}

/// The manager after each of the events was handled, in order: a
/// connection reported closed is let go of, a message changes nothing.
pub open spec fn events_handled(v: ServiceMgrView, events: Seq<ProxyEvent>) -> ServiceMgrView
    decreases events.len(),
{
    if events.len() == 0 {
        v
    } else {
        let before = events_handled(v, events.drop_last());
        match events.last() {
            ProxyEvent::Closed(key) => closed_spec(before, key@),
            ProxyEvent::Message(_, _, _) => before,
        }
    }
}

/// The manager after the listeners of the services named are asked to shut
/// down: all of them when no service is named.
pub open spec fn shutdown_spec(v: ServiceMgrView, service_id: Option<u64>) -> ServiceMgrView {
    ServiceMgrView {
        shutdown_requested: Seq::new(
            v.shutdown_requested.len(),
            |i: int|
                if service_id is None || service_id == Some(v.services[i].service_id) {
                    true
                } else {
                    v.shutdown_requested[i]
                },
        ),
        ..v
    }
}

/// Whether the connection under `key` is one to `service_id`, if a service is named.
pub open spec fn selected(v: ServiceMgrView, key: Seq<char>, service_id: Option<u64>) -> bool {
    &&& v.registry.contains_key(key)
    &&& service_id is None || service_id == Some(v.registry[key])
}

/// The text that reports that one service proxy could not be shut down.
pub open spec fn failure_text(service_id: u64, cause: Seq<char>) -> Seq<char> {
    "Failed shutting down service proxy: svc_id="@ + decimal(service_id as nat) + ", err="@
        + cause
}

/// The reports of the close tasks that could not be sent, one for each
/// service that has such a task: the service is the one that the registry
/// names for the task's proxy key, and the cause is that of the first of
/// its tasks that failed. The reports stand in the order of those tasks.
pub open spec fn failure_lines(registry: Map<Seq<char>, u64>, failed: Seq<(String, AppError)>) -> Seq<
    Seq<char>,
> {
    let found = first_by_owner(registry, failed.map_values(|f: (String, AppError)| f.0@));
    Seq::new(found.len(), |j: int| failure_text(found[j].0, failed[found[j].1].1.text()))
}

/// Manages the service proxies of the client.
pub struct ServiceMgr {
    service_proxy_visitors: Vec<ClientServiceProxyVisitor>,
    service_addrs: HashMap<u64, ProxyAddrs>,
    services_by_proxy_key: ProxyKeyTable,
}

impl ServiceMgr {
    /// The number of started proxies.
    pub closed spec fn count(&self) -> int {
        self.service_proxy_visitors.len() as int
    }

    /// The service id of the proxy at place `i`.
    pub closed spec fn sid_at(&self, i: int) -> u64 {
        self.service_proxy_visitors[i].service().service_id
    }

    /// Whether the proxy at place `i` holds a connection under `key`.
    pub closed spec fn holds_at(&self, i: int, key: Seq<char>) -> bool {
        self.service_proxy_visitors[i].holds(key)
    }

    /// Whether a proxy for `service_id` is started.
    pub closed spec fn has_service(&self, service_id: u64) -> bool {
        exists|i: int| 0 <= i < self.count() && #[trigger] self.sid_at(i) == service_id
    }

    /// The place of the proxy for `service_id`.
    pub closed spec fn place_of(&self, service_id: u64) -> int {
        choose|i: int| 0 <= i < self.count() && #[trigger] self.sid_at(i) == service_id
    }

    /// Whether the proxy of `service_id` holds a connection under `key`.
    pub closed spec fn holds(&self, service_id: u64, key: Seq<char>) -> bool {
        exists|i: int|
            0 <= i < self.count() && #[trigger] self.sid_at(i) == service_id && self.holds_at(
                i,
                key,
            )
    }

    /// What the manager holds.
    pub closed spec fn view(&self) -> ServiceMgrView {
        ServiceMgrView {
            service_addrs: self.service_addrs@,
            services: Seq::new(
                self.count() as nat,
                |i: int| self.service_proxy_visitors[i].service(),
            ),
            shutdown_requested: Seq::new(
                self.count() as nat,
                |i: int| self.service_proxy_visitors[i].shutdown_flag(),
            ),
            registry: self.services_by_proxy_key@,
        }
    }

    /// The manager is consistent: each service has one proxy, with its
    /// addresses on record, and each live connection is in the registry and
    /// in the connection set of its service's proxy and nowhere else.
    pub closed spec fn wf(&self) -> bool {
        &&& self.services_by_proxy_key.wf()
        &&& forall|i: int| 0 <= i < self.count() ==> (#[trigger] self.service_proxy_visitors[i]).wf()
        &&& forall|i: int, j: int|
            0 <= i < self.count() && 0 <= j < self.count() && #[trigger] self.sid_at(i)
                == #[trigger] self.sid_at(j) ==> i == j
        &&& forall|sid: u64| #[trigger]
            self.service_addrs@.contains_key(sid) <==> self.has_service(sid)
        &&& forall|i: int|
            0 <= i < self.count() ==> self.service_addrs@[#[trigger] self.sid_at(i)]
                == self.service_proxy_visitors[i].addrs()
        &&& forall|i: int, key: Seq<char>|
            0 <= i < self.count() && #[trigger] self.holds_at(i, key)
                ==> self.services_by_proxy_key@.contains_key(key)
                && self.services_by_proxy_key@[key] == self.sid_at(i)
        &&& forall|key: Seq<char>| #[trigger]
            self.services_by_proxy_key@.contains_key(key) ==> self.holds(
                self.services_by_proxy_key@[key],
                key,
            )
    }

    /// In a consistent manager the proxy at place `i` is the one found under its service id.
    proof fn lemma_place(&self, i: int)
        requires
            self.wf(),
            0 <= i < self.count(),
        ensures
            self.has_service(self.sid_at(i)),
            self.place_of(self.sid_at(i)) == i,
    {
    }

    /// In a consistent manager a registered connection is held by the proxy
    /// of its service.
    proof fn lemma_registered(&self, key: Seq<char>)
        requires
            self.wf(),
            self.services_by_proxy_key@.contains_key(key),
        ensures
            self.has_service(self.services_by_proxy_key@[key]),
            self.holds_at(self.place_of(self.services_by_proxy_key@[key]), key),
            0 <= self.place_of(self.services_by_proxy_key@[key]) < self.count(),
    {
        let sid = self.services_by_proxy_key@[key];
        assert(self.holds(sid, key));
        let i = choose|i: int|
            0 <= i < self.count() && #[trigger] self.sid_at(i) == sid && self.holds_at(i, key);
        self.lemma_place(i);
    }

    /// Every live connection is held by the proxy of one service, the one
    /// that the registry names; a key that is not registered is held by none.
    pub proof fn lemma_one_entry_per_live_key(&self, key: Seq<char>)
        requires
            self.wf(),
        ensures
            forall|service_id: u64| #[trigger]
                self.holds(service_id, key) <==> (self@.registry.contains_key(key)
                    && self@.registry[key] == service_id),
    {
        assert forall|service_id: u64| #[trigger]
            self.holds(service_id, key) <==> (self@.registry.contains_key(key)
                && self@.registry[key] == service_id) by {
            if self.holds(service_id, key) {
                let i = choose|i: int|
                    0 <= i < self.count() && #[trigger] self.sid_at(i) == service_id
                        && self.holds_at(i, key);
                assert(self.holds_at(i, key));
            }
        }
    }

    /// The view lists each started service once: the services and the
    /// requests to shut down stand side by side, one place for each proxy,
    /// and in a consistent manager a service is listed exactly when its
    /// addresses are on record.
    pub proof fn lemma_view(&self)
        ensures
            self@.services.len() == self@.shutdown_requested.len(),
            self.wf() ==> forall|service_id: u64| #[trigger]
                self@.service_addrs.contains_key(service_id) <==> exists|i: int|
                    0 <= i < self@.services.len() && (#[trigger] self@.services[i]).service_id
                        == service_id,
    {
        if self.wf() {
            assert forall|service_id: u64| #[trigger]
                self@.service_addrs.contains_key(service_id) <==> exists|i: int|
                    0 <= i < self@.services.len() && (#[trigger] self@.services[i]).service_id
                        == service_id by {
                if self@.service_addrs.contains_key(service_id) {
                    assert(self.has_service(service_id));
                    let i = self.place_of(service_id);
                    assert(self@.services[i].service_id == service_id);
                }
                if exists|i: int|
                    0 <= i < self@.services.len() && (#[trigger] self@.services[i]).service_id
                        == service_id {
                    let i = choose|i: int|
                        0 <= i < self@.services.len() && (#[trigger] self@.services[i]).service_id
                            == service_id;
                    assert(self.sid_at(i) == service_id);
                }
            }
        }
    }

    /// What a change that keeps the services, their addresses and the
    /// connections of every proxy leaves as it was.
    proof fn lemma_same_services(&self, before: &Self)
        requires
            before.wf(),
            self.count() == before.count(),
            self.service_addrs == before.service_addrs,
            forall|i: int|
                0 <= i < self.count() ==> (#[trigger] self.service_proxy_visitors[i]).service()
                    == before.service_proxy_visitors[i].service(),
            forall|i: int|
                0 <= i < self.count() ==> (#[trigger] self.service_proxy_visitors[i]).addrs()
                    == before.service_proxy_visitors[i].addrs(),
        ensures
            forall|i: int| 0 <= i < self.count() ==> self.sid_at(i) == before.sid_at(i),
            forall|sid: u64| self.has_service(sid) <==> before.has_service(sid),
            forall|i: int, j: int|
                0 <= i < self.count() && 0 <= j < self.count() && #[trigger] self.sid_at(i)
                    == #[trigger] self.sid_at(j) ==> i == j,
            forall|sid: u64| #[trigger]
                self.service_addrs@.contains_key(sid) <==> self.has_service(sid),
            forall|i: int|
                0 <= i < self.count() ==> self.service_addrs@[#[trigger] self.sid_at(i)]
                    == self.service_proxy_visitors[i].addrs(),
            self@.services == before@.services,
            self@.service_addrs == before@.service_addrs,
    {
        assert forall|i: int| 0 <= i < self.count() implies self.sid_at(i) == before.sid_at(
            i,
        ) by {
            assert(self.service_proxy_visitors[i].service()
                == before.service_proxy_visitors[i].service());
        }
        assert forall|sid: u64| self.has_service(sid) <==> before.has_service(sid) by {
            if before.has_service(sid) {
                assert(self.sid_at(before.place_of(sid)) == sid);
            }
            if self.has_service(sid) {
                assert(before.sid_at(self.place_of(sid)) == sid);
            }
        }
        assert forall|i: int, j: int|
            0 <= i < self.count() && 0 <= j < self.count() && #[trigger] self.sid_at(i)
                == #[trigger] self.sid_at(j) implies i == j by {
            assert(before.sid_at(i) == before.sid_at(j));
        }
        assert forall|i: int| 0 <= i < self.count() implies self.service_addrs@[#[trigger] self.sid_at(
            i,
        )] == self.service_proxy_visitors[i].addrs() by {
            assert(before.service_addrs@[before.sid_at(i)]
                == before.service_proxy_visitors[i].addrs());
            assert(self.service_proxy_visitors[i].addrs()
                == before.service_proxy_visitors[i].addrs());
        }
        assert(self@.services =~= before@.services);
    }

    /// A manager with no proxy started.
    pub fn new() -> (mgr: ServiceMgr)
        ensures
            mgr.wf(),
            mgr@ == (ServiceMgrView {
                service_addrs: Map::empty(),
                services: Seq::empty(),
                shutdown_requested: Seq::empty(),
                registry: Map::empty(),
            }),
    {
        let mgr = ServiceMgr {
            service_proxy_visitors: Vec::new(),
            service_addrs: HashMap::new(),
            services_by_proxy_key: ProxyKeyTable::new(),
        };
        proof {
            assert(mgr@.services =~= Seq::<Service>::empty());
            assert(mgr@.shutdown_requested =~= Seq::<bool>::empty());
            assert(mgr@.service_addrs =~= Map::<u64, ProxyAddrs>::empty());
        }
        mgr
    }

    /// Where the proxy of `service_id` stands, if it is started.
    pub fn get_proxy_addrs_for_service(&self, service_id: u64) -> (addrs: Option<&ProxyAddrs>)
        ensures
            match addrs {
                Some(a) => self@.service_addrs.contains_key(service_id) && *a
                    == self@.service_addrs[service_id],
                None => !self@.service_addrs.contains_key(service_id),
            },
    {
        self.service_addrs.get(&service_id)
    }

    /// The started proxies, in the order in which they were started.
    pub fn _get_service_proxies(&self) -> (proxies: &Vec<ClientServiceProxyVisitor>)
        ensures
            proxies@.len() == self@.services.len(),
            proxies@.len() == self@.shutdown_requested.len(),
            forall|i: int|
                0 <= i < proxies@.len() ==> (#[trigger] proxies@[i]).service() == self@.services[i]
                    && proxies@[i].shutdown_flag() == self@.shutdown_requested[i],
            forall|i: int, key: Seq<char>|
                0 <= i < proxies@.len() ==> (#[trigger] proxies@[i].holds(key)) == self.holds_at(
                    i,
                    key,
                ),
    {
        &self.service_proxy_visitors
    }

    /// The service of the live connection under `proxy_key`, if there is one.
    pub fn get_service_id_by_proxy_key(&self, proxy_key: &str) -> (service_id: Option<u64>)
        requires
            self.wf(),
        ensures
            service_id == (if self@.registry.contains_key(proxy_key@) {
                Some(self@.registry[proxy_key@])
            } else {
                None
            }),
    {
        self.services_by_proxy_key.get(proxy_key)
    }

    /// Where the proxy for `service_id` stands among the started ones.
    fn find_service(&self, service_id: u64) -> (found: Option<usize>)
        ensures
            match found {
                Some(i) => i < self.count() && self.sid_at(i as int) == service_id,
                None => !self.has_service(service_id),
            },
    {
        let mut i: usize = 0;
        while i < self.service_proxy_visitors.len()
            invariant
                i <= self.count(),
                forall|j: int| 0 <= j < i ==> #[trigger] self.sid_at(j) != service_id,
            decreases self.count() - i,
        {
            if self.service_proxy_visitors[i].get_service_id() == service_id {
                return Some(i);
            }
            i = i + 1;
        }
        None
    }

    /// Starts the proxy for `service` at `proxy_addrs` unless it is started
    /// already, and answers with where the proxy stands: a service that is
    /// started keeps the addresses it was started with.
    pub fn startup(&mut self, service: &Service, proxy_addrs: &ProxyAddrs) -> (result: Result<
        ProxyAddrs,
        AppError,
    >)
        requires
            old(self).wf(),
        ensures
            final(self).wf(),
            final(self)@ == startup_spec(old(self)@, *service, *proxy_addrs).0,
            result matches Ok(addrs) && addrs == startup_spec(
                old(self)@,
                *service,
                *proxy_addrs,
            ).1,
    {
        let service_id = service.service_id;
        if let Some(addrs) = self.service_addrs.get(&service_id) {
            return Ok(addrs.clone());
        }
        let ghost before = *self;
        let visitor = ClientServiceProxyVisitor::new(service.clone(), proxy_addrs.clone());
        self.service_addrs.insert(service_id, proxy_addrs.clone());
        self.service_proxy_visitors.push(visitor);
        proof {
            let n = before.count();
            assert(self.count() == n + 1);
            assert(!before.has_service(service_id));
            assert forall|i: int| 0 <= i < n implies self.sid_at(i) == before.sid_at(i) by {}
            assert(self.sid_at(n) == service_id);
            assert forall|i: int, key: Seq<char>| 0 <= i < n implies self.holds_at(i, key)
                == before.holds_at(i, key) by {}
            assert forall|key: Seq<char>| !self.holds_at(n, key) by {}
            assert forall|sid: u64| self.has_service(sid) <==> (sid == service_id
                || before.has_service(sid)) by {
                if before.has_service(sid) {
                    let i = before.place_of(sid);
                    assert(self.sid_at(i) == sid);
                }
                if self.has_service(sid) {
                    let i = self.place_of(sid);
                    if i < n {
                        assert(before.sid_at(i) == sid);
                    }
                }
                if sid == service_id {
                    assert(self.sid_at(n) == sid);
                }
            }
            assert forall|i: int, j: int|
                0 <= i < self.count() && 0 <= j < self.count() && #[trigger] self.sid_at(i)
                    == #[trigger] self.sid_at(j) implies i == j by {
                if i < n {
                    assert(before.sid_at(i) == self.sid_at(i));
                }
                if j < n {
                    assert(before.sid_at(j) == self.sid_at(j));
                }
            }
            assert forall|i: int| 0 <= i < self.count() implies self.service_addrs@[#[trigger] self.sid_at(
                i,
            )] == self.service_proxy_visitors[i].addrs() by {
                if i < n {
                    assert(before.sid_at(i) == self.sid_at(i));
                    assert(before.has_service(self.sid_at(i)));
                }
            }
            assert forall|key: Seq<char>| #[trigger]
                self.services_by_proxy_key@.contains_key(key) implies self.holds(
                self.services_by_proxy_key@[key],
                key,
            ) by {
                before.lemma_registered(key);
                let i = before.place_of(before.services_by_proxy_key@[key]);
                assert(self.sid_at(i) == before.sid_at(i));
                assert(self.holds_at(i, key));
            }
            assert forall|i: int, key: Seq<char>|
                0 <= i < self.count() && #[trigger] self.holds_at(i, key)
                    implies self.services_by_proxy_key@.contains_key(key)
                && self.services_by_proxy_key@[key] == self.sid_at(i) by {
                if i < n {
                    assert(before.holds_at(i, key));
                }
            }
            assert forall|i: int| 0 <= i < self.count() implies (
            #[trigger] self.service_proxy_visitors[i]).wf() by {
                if i < n {
                    assert(before.service_proxy_visitors[i].wf());
                }
            }
            assert(self.wf());
            let wanted = startup_spec(before@, *service, *proxy_addrs).0;
            assert(self@.services =~= wanted.services);
            assert(self@.shutdown_requested =~= wanted.shutdown_requested);
            assert(self@.service_addrs =~= wanted.service_addrs);
            assert(self@ == wanted);
        }
        Ok(proxy_addrs.clone())
    }

    /// Takes a new connection to `service_id` on record under `proxy_key`,
    /// in the proxy of the service and in the registry, and answers with
    /// the task that opens its tunnel. Fails, and changes nothing, when no
    /// proxy is started for the service or the key is in use.
    pub fn open_proxy(&mut self, service_id: u64, proxy_key: &str) -> (result: Result<
        ProxyExecutorEvent,
        AppError,
    >)
        requires
            old(self).wf(),
        ensures
            final(self).wf(),
            match result {
                Ok(task) => {
                    &&& old(self)@.service_addrs.contains_key(service_id)
                    &&& !old(self)@.registry.contains_key(proxy_key@)
                    &&& final(self)@ == (ServiceMgrView {
                        registry: old(self)@.registry.insert(proxy_key@, service_id),
                        ..old(self)@
                    })
                    &&& task.key() == proxy_key@
                    &&& !(task is Close)
                    &&& exists|i: int|
                        0 <= i < old(self)@.services.len() && (#[trigger] old(self)@.services[i]).service_id == service_id && (task is OpenTcp
                            <==> old(self)@.services[i].transport == Transport::TCP)
                },
                Err(err) => {
                    &&& final(self)@ == old(self)@
                    &&& if !old(self)@.service_addrs.contains_key(service_id) {
                        err.is_coded(425, "[E0425] Inactive service proxy"@)
                    } else {
                        old(self)@.registry.contains_key(proxy_key@) && err.is_general(
                            "Proxy key already in use: key="@ + proxy_key@,
                        )
                    }
                },
            },
    {
        let ghost before = *self;
        let ghost key = proxy_key@;
        let at = match self.find_service(service_id) {
            Some(at) => at,
            None => {
                return Err(
                    AppError::GenWithCodeAndMsg(
                        425,
                        String::from_str("[E0425] Inactive service proxy"),
                    ),
                );
            },
        };
        proof {
            before.lemma_place(at as int);
        }
        if self.services_by_proxy_key.contains_key(proxy_key) {
            return Err(AppError::general_with("Proxy key already in use: key=", proxy_key));
        }
        let transport = self.service_proxy_visitors[at].get_service().transport;
        proof {
            assert forall|i: int| 0 <= i < before.count() implies !before.holds_at(i, key) by {}
            assert(!before.holds_at(at as int, key));
        }
        let added = self.service_proxy_visitors[at].add_proxy(proxy_key);
        assert(added);
        self.services_by_proxy_key.insert(proxy_key, service_id);
        proof {
            let a = at as int;
            self.lemma_same_services(&before);
            assert forall|i: int, k: Seq<char>| 0 <= i < self.count() implies (self.holds_at(i, k)
                <==> (before.holds_at(i, k) || (i == a && k == key))) by {}
            assert forall|k: Seq<char>| #[trigger]
                self.services_by_proxy_key@.contains_key(k) implies self.holds(
                self.services_by_proxy_key@[k],
                k,
            ) by {
                if k == key {
                    assert(self.sid_at(a) == service_id);
                    assert(self.holds_at(a, k));
                } else {
                    before.lemma_registered(k);
                    let i = before.place_of(before.services_by_proxy_key@[k]);
                    assert(self.sid_at(i) == before.sid_at(i));
                    assert(self.holds_at(i, k));
                }
            }
            assert forall|i: int, k: Seq<char>|
                0 <= i < self.count() && #[trigger] self.holds_at(i, k)
                    implies self.services_by_proxy_key@.contains_key(k)
                && self.services_by_proxy_key@[k] == self.sid_at(i) by {
                if !(i == a && k == key) {
                    assert(before.holds_at(i, k));
                }
            }
            assert forall|i: int| 0 <= i < self.count() implies (
            #[trigger] self.service_proxy_visitors[i]).wf() by {
                if i != a {
                    assert(before.service_proxy_visitors[i].wf());
                }
            }
            assert(self.wf());
            assert(self@.shutdown_requested =~= before@.shutdown_requested);
            assert(before@.services[a].service_id == service_id);
        }
        match transport {
            Transport::TCP => Ok(ProxyExecutorEvent::OpenTcp(String::from_str(proxy_key))),
            Transport::UDP => Ok(ProxyExecutorEvent::OpenUdp(String::from_str(proxy_key))),
        }
    }

    /// Takes note that the connection under `proxy_key` is closed: the
    /// proxy of its service lets go of it, then the registry does. Says
    /// whether there was such a connection; a key that is not registered
    /// changes nothing.
    pub fn on_closed_proxy(&mut self, proxy_key: &str) -> (removed: bool)
        requires
            old(self).wf(),
        ensures
            final(self).wf(),
            removed == old(self)@.registry.contains_key(proxy_key@),
            final(self)@ == closed_spec(old(self)@, proxy_key@),
            forall|service_id: u64| !final(self).holds(service_id, proxy_key@),
    {
        let ghost before = *self;
        let ghost key = proxy_key@;
        let service_id = match self.services_by_proxy_key.get(proxy_key) {
            Some(service_id) => service_id,
            None => {
                proof {
                    assert(self@.registry.remove(key) =~= self@.registry);
                    self.lemma_one_entry_per_live_key(key);
                }
                return false;
            },
        };
        proof {
            before.lemma_registered(key);
        }
        let at = match self.find_service(service_id) {
            Some(at) => at,
            None => {
                return false;
            },
        };
        proof {
            before.lemma_place(at as int);
        }
        let removed = self.service_proxy_visitors[at].remove_proxy_for_key(proxy_key);
        self.services_by_proxy_key.remove(proxy_key);
        proof {
            let a = at as int;
            self.lemma_same_services(&before);
            assert forall|i: int, k: Seq<char>| 0 <= i < self.count() implies (self.holds_at(i, k)
                <==> (before.holds_at(i, k) && k != key)) by {
                if i != a && before.holds_at(i, k) && k == key {
                    assert(before.sid_at(i) == before.sid_at(a));
                }
            }
            assert forall|k: Seq<char>| #[trigger]
                self.services_by_proxy_key@.contains_key(k) implies self.holds(
                self.services_by_proxy_key@[k],
                k,
            ) by {
                before.lemma_registered(k);
                let i = before.place_of(before.services_by_proxy_key@[k]);
                assert(self.sid_at(i) == before.sid_at(i));
                assert(self.holds_at(i, k));
            }
            assert forall|i: int, k: Seq<char>|
                0 <= i < self.count() && #[trigger] self.holds_at(i, k)
                    implies self.services_by_proxy_key@.contains_key(k)
                && self.services_by_proxy_key@[k] == self.sid_at(i) by {
                assert(before.holds_at(i, k));
            }
            assert forall|i: int| 0 <= i < self.count() implies (
            #[trigger] self.service_proxy_visitors[i]).wf() by {
                if i != a {
                    assert(before.service_proxy_visitors[i].wf());
                }
            }
            assert(self.wf());
            assert(self@.shutdown_requested =~= before@.shutdown_requested);
            self.lemma_one_entry_per_live_key(key);
        }
        removed
    }

    /// Handles what the tunnels reported, in order: a connection reported
    /// closed is let go of; a message, or a key that is not registered,
    /// changes nothing.
    pub fn poll_proxy_events(&mut self, proxy_events: &Vec<ProxyEvent>)
        requires
            old(self).wf(),
        ensures
            final(self).wf(),
            final(self)@ == events_handled(old(self)@, proxy_events@),
    {
        let mut i: usize = 0;
        assert(proxy_events@.take(0) =~= Seq::<ProxyEvent>::empty());
        while i < proxy_events.len()
            invariant
                i <= proxy_events.len(),
                self.wf(),
                self@ == events_handled(old(self)@, proxy_events@.take(i as int)),
            decreases proxy_events.len() - i,
        {
            proof {
                let next = proxy_events@.take(i + 1);
                assert(next.drop_last() =~= proxy_events@.take(i as int));
                assert(next.last() == proxy_events@[i as int]);
            }
            match &proxy_events[i] {
                ProxyEvent::Closed(proxy_key) => {
                    self.on_closed_proxy(proxy_key.as_str());
                },
                ProxyEvent::Message(_, _, _) => {},
            }
            i = i + 1;
        }
        assert(proxy_events@.take(i as int) =~= proxy_events@);
    }

    /// Asks the listeners of the services named to shut down, all of them
    /// when none is named, and gives the tasks that close their live
    /// connections: one task for each such connection and none for any
    /// other.
    fn shutdown_services(&mut self, service_id: Option<u64>) -> (tasks: Vec<ProxyExecutorEvent>)
        requires
            old(self).wf(),
        ensures
            final(self).wf(),
            final(self)@ == shutdown_spec(old(self)@, service_id),
            all_close(tasks@),
            task_keys(tasks@).no_duplicates(),
            forall|key: Seq<char>| #[trigger]
                task_keys(tasks@).contains(key) <==> selected(old(self)@, key, service_id),
    {
        let ghost before = *self;
        let mut tasks: Vec<ProxyExecutorEvent> = Vec::new();
        let mut i: usize = 0;
        while i < self.service_proxy_visitors.len()
            invariant
                before.wf(),
                self.wf(),
                i <= self.count(),
                self.count() == before.count(),
                self.service_addrs == before.service_addrs,
                self.services_by_proxy_key == before.services_by_proxy_key,
                forall|j: int|
                    0 <= j < self.count() ==> (#[trigger] self.service_proxy_visitors[j]).service()
                        == before.service_proxy_visitors[j].service(),
                forall|j: int|
                    0 <= j < self.count() ==> (#[trigger] self.service_proxy_visitors[j]).addrs()
                        == before.service_proxy_visitors[j].addrs(),
                forall|j: int, k: Seq<char>|
                    0 <= j < self.count() ==> (#[trigger] self.holds_at(j, k)) == before.holds_at(
                        j,
                        k,
                    ),
                forall|j: int|
                    0 <= j < self.count() ==> (#[trigger] self.service_proxy_visitors[j]).shutdown_flag()
                        == (if j < i && (service_id is None || service_id == Some(
                        before.sid_at(j),
                    )) {
                        true
                    } else {
                        before.service_proxy_visitors[j].shutdown_flag()
                    }),
                all_close(tasks@),
                task_keys(tasks@).no_duplicates(),
                forall|key: Seq<char>| #[trigger]
                    task_keys(tasks@).contains(key) <==> exists|j: int|
                        0 <= j < i && (service_id is None || service_id == Some(
                            before.sid_at(j),
                        )) && #[trigger] before.holds_at(j, key),
            decreases self.count() - i,
        {
            let ghost entered = *self;
            let take = match service_id {
                None => true,
                Some(id) => id == self.service_proxy_visitors[i].get_service_id(),
            };
            assert(self.sid_at(i as int) == before.sid_at(i as int));
            if take {
                let ghost earlier = tasks@;
                self.service_proxy_visitors[i].set_shutdown_requested(true);
                let mut more = self.service_proxy_visitors[i].shutdown_connections();
                let ghost added = more@;
                tasks.append(&mut more);
                proof {
                    let visitor = self.service_proxy_visitors[i as int];
                    visitor.lemma_listing();
                    assert(tasks@ =~= earlier + added);
                    assert(task_keys(tasks@) =~= task_keys(earlier) + task_keys(added));
                    assert forall|key: Seq<char>| #[trigger]
                        task_keys(added).contains(key) <==> before.holds_at(i as int, key) by {
                        assert(self.holds_at(i as int, key) == entered.holds_at(i as int, key));
                        assert(entered.holds_at(i as int, key) == before.holds_at(i as int, key));
                    }
                    assert forall|key: Seq<char>| #[trigger]
                        task_keys(tasks@).contains(key) <==> exists|j: int|
                            0 <= j < i + 1 && (service_id is None || service_id == Some(
                                before.sid_at(j),
                            )) && #[trigger] before.holds_at(j, key) by {
                        let all = task_keys(tasks@);
                        if all.contains(key) {
                            let at = choose|at: int| 0 <= at < all.len() && all[at] == key;
                            if at < task_keys(earlier).len() {
                                assert(task_keys(earlier)[at] == key);
                                assert(task_keys(earlier).contains(key));
                                let j = choose|j: int|
                                    0 <= j < i && (service_id is None || service_id == Some(
                                        before.sid_at(j),
                                    )) && #[trigger] before.holds_at(j, key);
                                assert(before.holds_at(j, key));
                            } else {
                                assert(task_keys(added)[at - task_keys(earlier).len()] == key);
                                assert(task_keys(added).contains(key));
                                assert(before.holds_at(i as int, key));
                            }
                        }
                        if exists|j: int|
                            0 <= j < i + 1 && (service_id is None || service_id == Some(
                                before.sid_at(j),
                            )) && #[trigger] before.holds_at(j, key) {
                            let j = choose|j: int|
                                0 <= j < i + 1 && (service_id is None || service_id == Some(
                                    before.sid_at(j),
                                )) && #[trigger] before.holds_at(j, key);
                            if j < i {
                                assert(task_keys(earlier).contains(key));
                                let at = choose|at: int|
                                    0 <= at < task_keys(earlier).len() && task_keys(earlier)[at]
                                        == key;
                                assert(all[at] == key);
                            } else {
                                assert(task_keys(added).contains(key));
                                let at = choose|at: int|
                                    0 <= at < task_keys(added).len() && task_keys(added)[at]
                                        == key;
                                assert(all[task_keys(earlier).len() + at] == key);
                            }
                        }
                    }
                    assert(task_keys(tasks@).no_duplicates()) by {
                        let all = task_keys(tasks@);
                        let old_len = task_keys(earlier).len() as int;
                        assert forall|a: int, b: int|
                            0 <= a < all.len() && 0 <= b < all.len() && a != b implies all[a]
                            != all[b] by {
                            if a < old_len && b < old_len {
                                assert(task_keys(earlier)[a] != task_keys(earlier)[b]);
                            } else if a >= old_len && b >= old_len {
                                assert(task_keys(added)[a - old_len] != task_keys(added)[b
                                    - old_len]);
                            } else {
                                let (lo, hi) = if a < old_len {
                                    (a, b)
                                } else {
                                    (b, a)
                                };
                                let key = all[lo];
                                assert(task_keys(earlier)[lo] == key);
                                assert(task_keys(earlier).contains(key));
                                let j = choose|j: int|
                                    0 <= j < i && (service_id is None || service_id == Some(
                                        before.sid_at(j),
                                    )) && #[trigger] before.holds_at(j, key);
                                assert(before.holds_at(j, key));
                                if all[hi] == key {
                                    assert(task_keys(added)[hi - old_len] == key);
                                    assert(task_keys(added).contains(key));
                                    assert(before.holds_at(i as int, key));
                                    assert(before.sid_at(j) == before.sid_at(i as int));
                                }
                            }
                        }
                    }
                    assert forall|k: int| 0 <= k < tasks@.len() implies (#[trigger] tasks@[k])
                        is Close by {
                        if k < earlier.len() {
                            assert(earlier[k] is Close);
                        } else {
                            assert(added[k - earlier.len()] is Close);
                        }
                    }
                    assert forall|j: int, k: Seq<char>| 0 <= j < self.count() implies (
                    #[trigger] self.holds_at(j, k)) == before.holds_at(j, k) by {
                        assert(entered.holds_at(j, k) == before.holds_at(j, k));
                    }
                    self.lemma_same_services(&before);
                    assert forall|j: int| 0 <= j < self.count() implies (
                    #[trigger] self.service_proxy_visitors[j]).wf() by {
                        if j != i {
                            assert(entered.service_proxy_visitors[j].wf());
                        }
                    }
                    assert forall|k: Seq<char>| #[trigger]
                        self.services_by_proxy_key@.contains_key(k) implies self.holds(
                        self.services_by_proxy_key@[k],
                        k,
                    ) by {
                        before.lemma_registered(k);
                        let j = before.place_of(before.services_by_proxy_key@[k]);
                        assert(self.sid_at(j) == before.sid_at(j));
                        assert(self.holds_at(j, k) == before.holds_at(j, k));
                    }
                    assert forall|j: int, k: Seq<char>|
                        0 <= j < self.count() && #[trigger] self.holds_at(j, k)
                            implies self.services_by_proxy_key@.contains_key(k)
                        && self.services_by_proxy_key@[k] == self.sid_at(j) by {
                        assert(before.holds_at(j, k));
                    }
                    assert(self.wf());
                }
            } else {
                proof {
                    assert forall|key: Seq<char>| #[trigger]
                        task_keys(tasks@).contains(key) <==> exists|j: int|
                            0 <= j < i + 1 && (service_id is None || service_id == Some(
                                before.sid_at(j),
                            )) && #[trigger] before.holds_at(j, key) by {
                        if exists|j: int|
                            0 <= j < i + 1 && (service_id is None || service_id == Some(
                                before.sid_at(j),
                            )) && #[trigger] before.holds_at(j, key) {
                            let j = choose|j: int|
                                0 <= j < i + 1 && (service_id is None || service_id == Some(
                                    before.sid_at(j),
                                )) && #[trigger] before.holds_at(j, key);
                            assert(j < i);
                        }
                        if task_keys(tasks@).contains(key) {
                            let j = choose|j: int|
                                0 <= j < i && (service_id is None || service_id == Some(
                                    before.sid_at(j),
                                )) && #[trigger] before.holds_at(j, key);
                            assert(0 <= j < i + 1 && before.holds_at(j, key));
                        }
                    }
                }
            }
            i = i + 1;
        }
        proof {
            assert forall|key: Seq<char>| #[trigger]
                task_keys(tasks@).contains(key) <==> selected(before@, key, service_id) by {
                if task_keys(tasks@).contains(key) {
                    let j = choose|j: int|
                        0 <= j < i && (service_id is None || service_id == Some(
                            before.sid_at(j),
                        )) && #[trigger] before.holds_at(j, key);
                    assert(before.holds_at(j, key));
                }
                if selected(before@, key, service_id) {
                    before.lemma_registered(key);
                    let j = before.place_of(before.services_by_proxy_key@[key]);
                    assert(before.holds_at(j, key));
                }
            }
            self.lemma_same_services(&before);
            let wanted = shutdown_spec(before@, service_id);
            assert forall|j: int| 0 <= j < self.count() implies self@.shutdown_requested[j]
                == wanted.shutdown_requested[j] by {
                assert(self.service_proxy_visitors[j].shutdown_flag() == (if j < i && (service_id
                    is None || service_id == Some(before.sid_at(j))) {
                    true
                } else {
                    before.service_proxy_visitors[j].shutdown_flag()
                }));
                assert(before@.services[j].service_id == before.sid_at(j));
            }
            assert(self@.shutdown_requested =~= wanted.shutdown_requested);
            assert(self@ == wanted);
        }
        tasks
    }

    /// Shuts all service proxies down: every listener is asked to shut
    /// down, and the tasks returned close the live connections, one task
    /// for each.
    pub fn shutdown(&mut self) -> (tasks: Vec<ProxyExecutorEvent>)
        requires
            old(self).wf(),
        ensures
            final(self).wf(),
            final(self)@ == shutdown_spec(old(self)@, None),
            all_close(tasks@),
            task_keys(tasks@).no_duplicates(),
            forall|key: Seq<char>| #[trigger]
                task_keys(tasks@).contains(key) <==> old(self)@.registry.contains_key(key),
    {
        let tasks = self.shutdown_services(None);
        assert forall|key: Seq<char>| #[trigger]
            task_keys(tasks@).contains(key) <==> old(self)@.registry.contains_key(key) by {
            assert(selected(old(self)@, key, None) == old(self)@.registry.contains_key(key));
        }
        tasks
    }

    /// Shuts the proxy of one service down: its listener is asked to shut
    /// down, and the tasks returned close its live connections, one task
    /// for each. A service that is not started changes nothing.
    pub fn _shutdown_for_service(&mut self, service_id: u64) -> (tasks: Vec<ProxyExecutorEvent>)
        requires
            old(self).wf(),
        ensures
            final(self).wf(),
            final(self)@ == shutdown_spec(old(self)@, Some(service_id)),
            all_close(tasks@),
            task_keys(tasks@).no_duplicates(),
            forall|key: Seq<char>| #[trigger]
                task_keys(tasks@).contains(key) <==> selected(old(self)@, key, Some(service_id)),
    {
        self.shutdown_services(Some(service_id))
    }

    /// The outcome of shutting proxies down, given the close tasks that
    /// could not be sent, each by its proxy key and with its cause: success
    /// when there is none for a connection on record, else one error that
    /// names each service that has such a task, once.
    pub fn shutdown_outcome(&self, failed: &Vec<(String, AppError)>) -> (result: Result<
        (),
        AppError,
    >)
        requires
            self.wf(),
        ensures
            result is Ok <==> failure_lines(self@.registry, failed@).len() == 0,
            result matches Err(err) ==> err.is_general(
                "Error shutting down services: err(s)="@ + joined(
                    failure_lines(self@.registry, failed@),
                ),
            ),
    {
        let mut keys: Vec<String> = Vec::new();
        let mut i: usize = 0;
        while i < failed.len()
            invariant
                i <= failed.len(),
                keys@.len() == i,
                forall|j: int| 0 <= j < i ==> (#[trigger] keys@[j])@ == failed@[j].0@,
            decreases failed.len() - i,
        {
            keys.push(failed[i].0.clone());
            i = i + 1;
        }
        assert(keys@.map_values(|k: String| k@) =~= failed@.map_values(
            |f: (String, AppError)| f.0@,
        ));
        let found = self.services_by_proxy_key.first_by_owner(&keys);
        let ghost wanted = failure_lines(self@.registry, failed@);
        let mut errors: Vec<String> = Vec::new();
        let mut j: usize = 0;
        while j < found.len()
            invariant
                j <= found.len(),
                found@.len() == wanted.len(),
                errors@.len() == j,
                forall|k: int|
                    0 <= k < found@.len() ==> (#[trigger] found@[k]).1 < failed@.len()
                        && wanted[k] == failure_text(
                        found@[k].0,
                        failed@[found@[k].1 as int].1.text(),
                    ),
                forall|k: int| 0 <= k < j ==> (#[trigger] errors@[k])@ == wanted[k],
            decreases found.len() - j,
        {
            let (service_id, at) = found[j];
            errors.push(Self::shutdown_failure(service_id, &failed[at].1));
            j = j + 1;
        }
        assert(errors@.map_values(|t: String| t@) =~= wanted);
        Self::shutdown_result(&errors)
    }

    /// The text that reports that one service proxy could not be shut down.
    pub fn shutdown_failure(service_id: u64, err: &AppError) -> (text: String)
        ensures
            text@ == "Failed shutting down service proxy: svc_id="@ + decimal(service_id as nat)
                + ", err="@ + err.text(),
    {
        let mut text = String::from_str("Failed shutting down service proxy: svc_id=");
        append_decimal(&mut text, service_id);
        text.append(", err=");
        let cause = err.to_string();
        text.append(cause.as_str());
        text
    }

    /// The outcome of shutting all proxies down, given the reports of what
    /// failed: success when nothing did, else one error that holds them all.
    pub fn shutdown_result(errors: &Vec<String>) -> (result: Result<(), AppError>)
        ensures
            result is Ok <==> errors@.len() == 0,
            result matches Err(err) ==> err.is_general(
                "Error shutting down services: err(s)="@ + joined(
                    errors@.map_values(|t: String| t@),
                ),
            ),
    {
        if errors.len() == 0 {
            return Ok(());
        }
        let mut message = String::from_str("Error shutting down services: err(s)=");
        append_joined(&mut message, errors);
        Err(AppError::General(message))
    }

    /// The outcome of shutting the proxy of one service down, given what
    /// failed, if anything did.
    pub fn shutdown_for_service_result(service_id: u64, failure: Option<&AppError>) -> (result:
        Result<(), AppError>)
        ensures
            result is Ok <==> failure is None,
            result matches Err(err) ==> failure matches Some(cause) ==> err.is_general(
                "Error shutting down service: svc_id="@ + decimal(service_id as nat)
                    + ", err(s)="@ + cause.text(),
            ),
    {
        match failure {
            None => Ok(()),
            Some(cause) => {
                let mut message = String::from_str("Error shutting down service: svc_id=");
                append_decimal(&mut message, service_id);
                message.append(", err(s)=");
                let text = cause.to_string();
                message.append(text.as_str());
                Err(AppError::General(message))
            },
        }
    }
}

/// Starting a service twice answers with equal addresses both times, and
/// the second time changes nothing: no proxy is added.
pub proof fn lemma_startup_idempotent(
    v: ServiceMgrView,
    service: Service,
    first: ProxyAddrs,
    second: ProxyAddrs,
)
    ensures
        startup_spec(startup_spec(v, service, first).0, service, second).1 == startup_spec(
            v,
            service,
            first,
        ).1,
        startup_spec(startup_spec(v, service, first).0, service, second).0 == startup_spec(
            v,
            service,
            first,
        ).0,
        startup_spec(startup_spec(v, service, first).0, service, second).0.services.len()
            == startup_spec(v, service, first).0.services.len(),
{
}

} // verus!
