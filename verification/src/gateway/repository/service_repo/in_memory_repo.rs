//! A repository of services that lives in memory.

use vstd::prelude::*;
use std::collections::HashMap;
use vstd::std_specs::hash::spec_hash_map_iter;
use vstd::std_specs::iter::IteratorSpec;
use crate::error::AppError;
use crate::gateway::repository::service_repo::{delete_spec, get_spec, keyed_by_id, load_spec};
use crate::gateway::repository::service_repo::{put_spec, ServiceRepository};
use crate::model::service::Service;

verus! {

broadcast use vstd::std_specs::hash::group_hash_axioms;

/// Services by their id, in a hash map.
pub struct InMemServiceRepo {
    services: HashMap<u64, Service>,
}

impl InMemServiceRepo {
    /// An empty repository.
    pub fn new() -> (repo: InMemServiceRepo)
        ensures
            repo.valid(),
            repo.records() == Map::<u64, Service>::empty(),
    {
        InMemServiceRepo { services: HashMap::new() }
    }
}

impl ServiceRepository for InMemServiceRepo {
    closed spec fn records(&self) -> Map<u64, Service> {
        self.services@
    }

    closed spec fn valid(&self) -> bool {
        keyed_by_id(self.services@)
    }

    fn connect_to_datasource(&mut self, services: &Vec<Service>) -> (result: Result<(), AppError>) {
        let mut i: usize = 0;
        assert(services@.take(0) =~= Seq::<Service>::empty());
        while i < services.len()
            invariant
                i <= services.len(),
                self.valid(),
                self.records() == load_spec(old(self).records(), services@.take(i as int)),
            decreases services.len() - i,
        {
            proof {
                let next = services@.take(i + 1);
                assert(next.drop_last() =~= services@.take(i as int));
                assert(next.last() == services@[i as int]);
            }
            let _ = self.put(services[i].clone());
            i = i + 1;
        }
        assert(services@.take(i as int) =~= services@);
        Ok(())
    }

    fn put(&mut self, service: Service) -> (result: Result<Option<Service>, AppError>) {
        Ok(self.services.insert(service.service_id, service))
    }

    fn get(&self, service_id: u64) -> (result: Result<Option<Service>, AppError>) {
        match self.services.get(&service_id) {
            Some(service) => Ok(Some(service.clone())),
            None => Ok(None),
        }
    }

    fn get_all(&self) -> (result: Result<Vec<Service>, AppError>) {
        let mut all: Vec<Service> = Vec::new();
        let ghost pairs = spec_hash_map_iter(&self.services).remaining();
        for entry in it: self.services.iter()
            invariant
                it.seq() == pairs,
                all@.len() == it.index(),
                forall|j: int| 0 <= j < all@.len() ==> all@[j] == *pairs[j].1,
        {
            all.push(entry.1.clone());
        }
        proof {
            let records = self.services@;
            assert(pairs.no_duplicates());
            assert forall|a: int, b: int|
                0 <= a < all@.len() && 0 <= b < all@.len() && a != b implies all@[a] != all@[b] by {
                assert(records.contains_key(*pairs[a].0) && records[*pairs[a].0] == *pairs[a].1);
                assert(records.contains_key(*pairs[b].0) && records[*pairs[b].0] == *pairs[b].1);
                if all@[a] == all@[b] {
                    assert(*pairs[a].0 == *pairs[b].0);
                    assert(pairs[a] == pairs[b]);
                }
            }
            assert forall|s: Service| all@.to_set().contains(s) <==> records.values().contains(
                s,
            ) by {
                if all@.to_set().contains(s) {
                    let j = choose|j: int| 0 <= j < all@.len() && all@[j] == s;
                    assert(records.contains_key(*pairs[j].0) && records[*pairs[j].0] == *pairs[j].1);
                }
                if records.values().contains(s) {
                    let k = choose|k: u64| records.contains_key(k) && records[k] == s;
                    assert(pairs.contains((&k, &records[k])));
                    let j = choose|j: int| 0 <= j < pairs.len() && pairs[j] == (&k, &records[k]);
                    assert(all@[j] == s);
                }
            }
            assert(all@.to_set() =~= records.values());
        }
        Ok(all)
    }

    fn delete(&mut self, service_id: u64) -> (result: Result<Option<Service>, AppError>) {
        Ok(self.services.remove(&service_id))
    }
}

} // verus!
