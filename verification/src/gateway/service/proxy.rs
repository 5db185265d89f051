//! The live connections of one service proxy on the gateway.

use vstd::prelude::*;
use crate::model::service::Service;
use crate::proxy::event::{all_close, task_keys, ProxyExecutorEvent};
use crate::proxy::registry::ProxyKeyTable;

verus! {

/// Of the keys given with their owners, those that belong to `user_id`, or
/// all of them when no user is named; in the order given.
pub open spec fn keys_of_user(keys: Seq<Seq<char>>, owners: Seq<u64>, user_id: Option<u64>) -> Seq<
    Seq<char>,
>
    decreases keys.len(),
{
    if keys.len() == 0 || owners.len() != keys.len() {
        Seq::empty()
    } else {
        let rest = keys_of_user(keys.drop_last(), owners.drop_last(), user_id);
        if user_id is None || user_id == Some(owners.last()) {
            rest.push(keys.last())
        } else {
            rest
        }
    }
}

/// A key is among those chosen for a user exactly when it is given with
/// that user as its owner, or with any owner when no user is named.
pub proof fn lemma_keys_of_user(
    keys: Seq<Seq<char>>,
    owners: Seq<u64>,
    user_id: Option<u64>,
    key: Seq<char>,
)
    requires
        keys.len() == owners.len(),
    ensures
        keys_of_user(keys, owners, user_id).contains(key) <==> exists|i: int|
            0 <= i < keys.len() && #[trigger] keys[i] == key && (user_id is None || user_id == Some(
                owners[i],
            )),
        keys_of_user(keys, owners, user_id).len() <= keys.len(),
    decreases keys.len(),
{
    let chosen = keys_of_user(keys, owners, user_id);
    if keys.len() > 0 {
        let n = keys.len() - 1;
        let rest = keys_of_user(keys.drop_last(), owners.drop_last(), user_id);
        lemma_keys_of_user(keys.drop_last(), owners.drop_last(), user_id, key);
        let last_chosen = user_id is None || user_id == Some(owners.last());
        if chosen.contains(key) {
            let at = choose|j: int| 0 <= j < chosen.len() && chosen[j] == key;
            if last_chosen && at == rest.len() {
                assert(keys[n] == key);
            } else {
                assert(rest[at] == key);
                assert(rest.contains(key));
                let i = choose|i: int|
                    0 <= i < keys.drop_last().len() && #[trigger] keys.drop_last()[i] == key && (
                    user_id is None || user_id == Some(owners.drop_last()[i]));
                assert(keys[i] == key);
            }
        }
        if exists|i: int|
            0 <= i < keys.len() && #[trigger] keys[i] == key && (user_id is None || user_id == Some(
                owners[i],
            )) {
            let i = choose|i: int|
                0 <= i < keys.len() && #[trigger] keys[i] == key && (user_id is None || user_id
                    == Some(owners[i]));
            if i == n {
                assert(chosen[rest.len() as int] == key);
            } else {
                assert(keys.drop_last()[i] == key);
                assert(owners.drop_last()[i] == owners[i]);
                assert(rest.contains(key));
                let at = choose|j: int| 0 <= j < rest.len() && rest[j] == key;
                assert(chosen[at] == key);
            }
        }
    }
}

/// The keys chosen for a user from keys that are all different are all different.
pub proof fn lemma_keys_of_user_distinct(
    keys: Seq<Seq<char>>,
    owners: Seq<u64>,
    user_id: Option<u64>,
)
    requires
        keys.len() == owners.len(),
        keys.no_duplicates(),
    ensures
        keys_of_user(keys, owners, user_id).no_duplicates(),
    decreases keys.len(),
{
    if keys.len() > 0 {
        let n = keys.len() - 1;
        let rest = keys_of_user(keys.drop_last(), owners.drop_last(), user_id);
        lemma_keys_of_user_distinct(keys.drop_last(), owners.drop_last(), user_id);
        lemma_keys_of_user(keys.drop_last(), owners.drop_last(), user_id, keys.last());
        if rest.contains(keys.last()) {
            let i = choose|i: int|
                0 <= i < keys.drop_last().len() && #[trigger] keys.drop_last()[i] == keys.last();
            assert(keys[i] == keys[n]);
        }
    }
}

/// The state of one service proxy on the gateway: the service, where its
/// listener stands, and the live connections with the user of each.
pub struct GatewayServiceProxyVisitor {
    service: Service,
    proxy_host: Option<String>,
    proxy_port: u16,
    shutdown_requested: bool,
    proxies: ProxyKeyTable,
}

impl GatewayServiceProxyVisitor {
    /// The service that is proxied.
    pub closed spec fn service(&self) -> Service {
        self.service
    }

    /// The host that clients are given for the proxy.
    pub closed spec fn host(&self) -> Option<String> {
        self.proxy_host
    }

    /// The port of the proxy's listener.
    pub closed spec fn port(&self) -> u16 {
        self.proxy_port
    }

    /// Whether the listener is asked to shut down.
    pub closed spec fn shutdown_flag(&self) -> bool {
        self.shutdown_requested
    }

    /// The live connections: proxy key to user id.
    pub closed spec fn proxies(&self) -> Map<Seq<char>, u64> {
        self.proxies@
    }

    /// The proxy keys of the live connections, in the order in which they came.
    pub closed spec fn keys(&self) -> Seq<Seq<char>> {
        self.proxies.keys()
    }

    /// The users of the live connections, in the order of `keys`.
    pub closed spec fn users(&self) -> Seq<u64> {
        self.proxies.owners()
    }

    /// No proxy key is held twice, and `keys` and `users` list what `proxies` maps.
    pub closed spec fn wf(&self) -> bool {
        self.proxies.wf()
    }

    /// How `keys`, `users` and `proxies` of a well-formed visitor hang together.
    pub proof fn lemma_listing(&self)
        requires
            self.wf(),
        ensures
            self.keys().len() == self.users().len(),
            self.keys().no_duplicates(),
            forall|i: int|
                0 <= i < self.keys().len() ==> self.proxies().contains_key(
                    #[trigger] self.keys()[i],
                ) && self.proxies()[self.keys()[i]] == self.users()[i],
            forall|key: Seq<char>| #[trigger]
                self.proxies().contains_key(key) ==> self.keys().contains(key),
    {
        assert forall|i: int| 0 <= i < self.keys().len() implies self.proxies().contains_key(
            #[trigger] self.keys()[i],
        ) && self.proxies()[self.keys()[i]] == self.users()[i] by {
            self.proxies.lemma_index(i);
        }
        assert forall|key: Seq<char>| #[trigger]
            self.proxies().contains_key(key) implies self.keys().contains(key) by {
            let i = self.proxies.index_of(key);
            assert(self.keys()[i] == key);
        }
        assert forall|i: int, j: int|
            0 <= i < self.keys().len() && 0 <= j < self.keys().len() && i != j implies self.keys()[i]
            != self.keys()[j] by {
            self.proxies.lemma_index(i);
            self.proxies.lemma_index(j);
        }
    }

    /// The state of a new proxy for `service`, with no connection.
    pub fn new(service: Service, proxy_host: Option<String>, proxy_port: u16) -> (visitor: Self)
        ensures
            visitor.wf(),
            visitor.service() == service,
            visitor.host() == proxy_host,
            visitor.port() == proxy_port,
            !visitor.shutdown_flag(),
            visitor.proxies() == Map::<Seq<char>, u64>::empty(),
            visitor.keys() == Seq::<Seq<char>>::empty(),
            visitor.users() == Seq::<u64>::empty(),
    {
        GatewayServiceProxyVisitor {
            service,
            proxy_host,
            proxy_port,
            shutdown_requested: false,
            proxies: ProxyKeyTable::new(),
        }
    }

    /// The service that is proxied.
    pub fn get_service(&self) -> (service: &Service)
        ensures
            *service == self.service(),
    {
        &self.service
    }

    /// The id of the service that is proxied.
    pub fn get_service_id(&self) -> (service_id: u64)
        ensures
            service_id == self.service().service_id,
    {
        self.service.service_id
    }

    /// The host that clients are given for the proxy.
    pub fn get_proxy_host(&self) -> (host: &Option<String>)
        ensures
            *host == self.host(),
    {
        &self.proxy_host
    }

    /// The port of the proxy's listener.
    pub fn get_proxy_port(&self) -> (port: u16)
        ensures
            port == self.port(),
    {
        self.proxy_port
    }

    /// Whether the listener is asked to shut down.
    pub fn get_shutdown_requested(&self) -> (requested: bool)
        ensures
            requested == self.shutdown_flag(),
    {
        self.shutdown_requested
    }

    /// Asks the listener to shut down, or takes the request back.
    pub fn set_shutdown_requested(&mut self, requested: bool)
        ensures
            final(self).shutdown_flag() == requested,
            final(self).service() == old(self).service(),
            final(self).host() == old(self).host(),
            final(self).port() == old(self).port(),
            final(self).proxies() == old(self).proxies(),
            final(self).keys() == old(self).keys(),
            final(self).users() == old(self).users(),
            final(self).wf() == old(self).wf(),
    {
        self.shutdown_requested = requested;
    }

    /// The number of live connections.
    pub fn proxy_count(&self) -> (count: usize)
        ensures
            count == self.keys().len(),
    {
        self.proxies.len()
    }

    /// Whether a connection is held under `proxy_key`.
    pub fn has_proxy(&self, proxy_key: &str) -> (held: bool)
        ensures
            held == self.proxies().contains_key(proxy_key@),
    {
        self.proxies.contains_key(proxy_key)
    }

    /// Holds a new connection of `user_id` under `proxy_key`, unless the key
    /// is in use; says whether it was added.
    pub fn add_proxy(&mut self, proxy_key: &str, user_id: u64) -> (added: bool)
        requires
            old(self).wf(),
        ensures
            final(self).wf(),
            added == !old(self).proxies().contains_key(proxy_key@),
            added ==> final(self).proxies() == old(self).proxies().insert(proxy_key@, user_id),
            added ==> final(self).keys() == old(self).keys().push(proxy_key@),
            added ==> final(self).users() == old(self).users().push(user_id),
            !added ==> *final(self) == *old(self),
            final(self).service() == old(self).service(),
            final(self).host() == old(self).host(),
            final(self).port() == old(self).port(),
            final(self).shutdown_flag() == old(self).shutdown_flag(),
    {
        self.proxies.insert(proxy_key, user_id)
    }

    /// Lets go of the connection under `proxy_key`; says whether there was one.
    pub fn remove_proxy_for_key(&mut self, proxy_key: &str) -> (removed: bool)
        requires
            old(self).wf(),
        ensures
            final(self).wf(),
            removed == old(self).proxies().contains_key(proxy_key@),
            final(self).proxies() == old(self).proxies().remove(proxy_key@),
            !removed ==> *final(self) == *old(self),
            final(self).service() == old(self).service(),
            final(self).host() == old(self).host(),
            final(self).port() == old(self).port(),
            final(self).shutdown_flag() == old(self).shutdown_flag(),
    {
        self.proxies.remove(proxy_key).is_some()
    }

    /// The proxy keys of the connections of `user_id`, or of all
    /// connections when no user is named, in the order in which they came.
    pub fn get_proxy_keys(&self, user_id: Option<u64>) -> (keys: Vec<String>)
        requires
            self.wf(),
        ensures
            keys@.map_values(|k: String| k@) == keys_of_user(self.keys(), self.users(), user_id),
    {
        let mut keys: Vec<String> = Vec::new();
        let count = self.proxies.len();
        let mut i: usize = 0;
        assert(self.keys().take(0) =~= Seq::<Seq<char>>::empty());
        while i < count
            invariant
                i <= count,
                count == self.keys().len(),
                self.keys().len() == self.users().len(),
                keys@.map_values(|k: String| k@) == keys_of_user(
                    self.keys().take(i as int),
                    self.users().take(i as int),
                    user_id,
                ),
            decreases count - i,
        {
            let (key, owner) = self.proxies.entry(i);
            let chosen = match user_id {
                None => true,
                Some(user) => user == owner,
            };
            let ghost before = keys@.map_values(|k: String| k@);
            if chosen {
                keys.push(String::from_str(key));
            }
            proof {
                let next_keys = self.keys().take(i + 1);
                let next_users = self.users().take(i + 1);
                assert(next_keys.drop_last() =~= self.keys().take(i as int));
                assert(next_users.drop_last() =~= self.users().take(i as int));
                assert(next_keys.last() == key@);
                assert(next_users.last() == owner);
                if chosen {
                    assert(keys@.map_values(|k: String| k@) =~= before.push(key@));
                }
            }
            i = i + 1;
        }
        assert(self.keys().take(i as int) =~= self.keys());
        assert(self.users().take(i as int) =~= self.users());
        keys
    }

    /// Whether `user_id` has a live connection.
    pub fn has_proxy_for_user(&self, user_id: u64) -> (found: bool)
        requires
            self.wf(),
        ensures
            found == exists|key: Seq<char>| #[trigger]
                self.proxies().contains_key(key) && self.proxies()[key] == user_id,
    {
        let count = self.proxies.len();
        let mut i: usize = 0;
        proof {
            self.lemma_listing();
        }
        while i < count
            invariant
                i <= count,
                count == self.keys().len(),
                self.keys().len() == self.users().len(),
                self.wf(),
                forall|j: int| 0 <= j < i ==> #[trigger] self.users()[j] != user_id,
            decreases count - i,
        {
            let (key, owner) = self.proxies.entry(i);
            if owner == user_id {
                proof {
                    self.lemma_listing();
                    let key = self.keys()[i as int];
                    assert(self.proxies().contains_key(key) && self.proxies()[key] == user_id);
                }
                return true;
            }
            i = i + 1;
        }
        proof {
            if exists|key: Seq<char>| #[trigger]
                self.proxies().contains_key(key) && self.proxies()[key] == user_id {
                let key = choose|key: Seq<char>| #[trigger]
                    self.proxies().contains_key(key) && self.proxies()[key] == user_id;
                assert(self.keys().contains(key));
                let j = choose|j: int| 0 <= j < self.keys().len() && self.keys()[j] == key;
                assert(self.users()[j] != user_id);
            }
        }
        false
    }

    /// The tasks that close the connections of `user_id`, or all
    /// connections when no user is named: one for each, in the order in
    /// which the connections came. The connections stay on record until
    /// each is reported closed.
    pub fn shutdown_connections(&self, user_id: Option<u64>) -> (tasks: Vec<ProxyExecutorEvent>)
        requires
            self.wf(),
        ensures
            all_close(tasks@),
            task_keys(tasks@) == keys_of_user(self.keys(), self.users(), user_id),
    {
        let keys = self.get_proxy_keys(user_id);
        let ghost chosen = keys@.map_values(|k: String| k@);
        let mut tasks: Vec<ProxyExecutorEvent> = Vec::new();
        let mut i: usize = 0;
        while i < keys.len()
            invariant
                i <= keys.len(),
                chosen == keys@.map_values(|k: String| k@),
                tasks@.len() == i,
                all_close(tasks@),
                forall|j: int| 0 <= j < i ==> (#[trigger] tasks@[j]).key() == chosen[j],
            decreases keys.len() - i,
        {
            tasks.push(ProxyExecutorEvent::Close(keys[i].clone()));
            i = i + 1;
        }
        assert(task_keys(tasks@) =~= chosen);
        tasks
    }
}

} // verus!
