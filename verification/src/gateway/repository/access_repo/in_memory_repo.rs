//! A repository of grants that lives in memory.

use vstd::prelude::*;
use std::collections::HashMap;
use vstd::std_specs::hash::spec_hash_map_iter;
use vstd::std_specs::iter::IteratorSpec;
use crate::error::AppError;
use crate::gateway::repository::access_repo::{delete_spec, get_spec, key_of, load_spec};
use crate::gateway::repository::access_repo::{put_spec, AccessRepository};
use crate::model::access::ServiceAccess;

verus! {

broadcast use vstd::std_specs::hash::group_hash_axioms;

/// The one number that stands for a user and a service: the user in the
/// upper 64 bits, the service in the lower 64.
pub open spec fn packed(user_id: u64, service_id: u64) -> u128 {
    (user_id * 0x1_0000_0000_0000_0000 + service_id) as u128
}

/// The one number that stands for a user and a service.
fn pack(user_id: u64, service_id: u64) -> (key: u128)
    ensures
        key == packed(user_id, service_id),
{
    (user_id as u128) * 0x1_0000_0000_0000_0000u128 + (service_id as u128)
}

/// Grants by user and service, in a hash map.
pub struct InMemAccessRepo {
    accesses: HashMap<u128, ServiceAccess>,
}

impl InMemAccessRepo {
    /// An empty repository.
    pub fn new() -> (repo: InMemAccessRepo)
        ensures
            repo.valid(),
            repo.records() == Map::<(u64, u64), ServiceAccess>::empty(),
    {
        let repo = InMemAccessRepo { accesses: HashMap::new() };
        assert(repo.records() =~= Map::<(u64, u64), ServiceAccess>::empty());
        repo
    }
}

impl AccessRepository for InMemAccessRepo {
    closed spec fn records(&self) -> Map<(u64, u64), ServiceAccess> {
        Map::new(
            |key: (u64, u64)| self.accesses@.contains_key(packed(key.0, key.1)),
            |key: (u64, u64)| self.accesses@[packed(key.0, key.1)],
        )
    }

    closed spec fn valid(&self) -> bool {
        forall|key: u128| #[trigger]
            self.accesses@.contains_key(key) ==> packed(
                self.accesses@[key].user_id,
                self.accesses@[key].service_id,
            ) == key
    }

    fn connect_to_datasource(&mut self, accesses: &Vec<ServiceAccess>) -> (result: Result<
        (),
        AppError,
    >) {
        let mut i: usize = 0;
        assert(accesses@.take(0) =~= Seq::<ServiceAccess>::empty());
        while i < accesses.len()
            invariant
                i <= accesses.len(),
                self.valid(),
                self.records() == load_spec(old(self).records(), accesses@.take(i as int)),
            decreases accesses.len() - i,
        {
            proof {
                let next = accesses@.take(i + 1);
                assert(next.drop_last() =~= accesses@.take(i as int));
                assert(next.last() == accesses@[i as int]);
            }
            let _ = self.put(accesses[i]);
            i = i + 1;
        }
        assert(accesses@.take(i as int) =~= accesses@);
        Ok(())
    }

    fn put(&mut self, access: ServiceAccess) -> (result: Result<Option<ServiceAccess>, AppError>) {
        let previous = self.accesses.insert(pack(access.user_id, access.service_id), access);
        assert(self.records() =~= put_spec(old(self).records(), access));
        Ok(previous)
    }

    fn get(&self, user_id: u64, service_id: u64) -> (result: Result<
        Option<ServiceAccess>,
        AppError,
    >) {
        match self.accesses.get(&pack(user_id, service_id)) {
            Some(access) => Ok(Some(*access)),
            None => Ok(None),
        }
    }

    fn get_all_for_user(&self, user_id: u64) -> (result: Result<Vec<ServiceAccess>, AppError>) {
        let mut all: Vec<ServiceAccess> = Vec::new();
        let ghost pairs = spec_hash_map_iter(&self.accesses).remaining();
        let ghost stored = self.accesses@;
        for entry in it: self.accesses.iter()
            invariant
                it.seq() == pairs,
                pairs.no_duplicates(),
                stored == self.accesses@,
                self.valid(),
                forall|j: int|
                    0 <= j < pairs.len() ==> stored.contains_key(*(#[trigger] pairs[j]).0)
                        && stored[*pairs[j].0] == *pairs[j].1,
                all@.no_duplicates(),
                forall|access: ServiceAccess|
                    all@.contains(access) <==> (access.user_id == user_id && exists|j: int|
                        0 <= j < it.index() && *(#[trigger] pairs[j]).1 == access),
        {
            let ghost before = all@;
            let ghost at = it.index();
            if entry.1.user_id == user_id {
                all.push(*entry.1);
                proof {
                    let added = *pairs[at].1;
                    assert(all@ =~= before.push(added));
                    if before.contains(added) {
                        let j = choose|j: int| 0 <= j < at && *(#[trigger] pairs[j]).1 == added;
                        assert(stored[*pairs[j].0] == added);
                        assert(stored[*pairs[at].0] == added);
                        assert(*pairs[j].0 == *pairs[at].0);
                        assert(pairs[j] == pairs[at]);
                    }
                    assert(!before.contains(added));
                    assert forall|a: int, b: int|
                        0 <= a < all@.len() && 0 <= b < all@.len() && a != b implies all@[a]
                        != all@[b] by {
                        if a < before.len() && b < before.len() {
                            assert(before[a] != before[b]);
                        } else if a < before.len() {
                            assert(before.contains(before[a]));
                        } else {
                            assert(before.contains(before[b]));
                        }
                    }
                    assert forall|access: ServiceAccess|
                        all@.contains(access) <==> (access.user_id == user_id && exists|j: int|
                            0 <= j < at + 1 && *(#[trigger] pairs[j]).1 == access) by {
                        if all@.contains(access) {
                            let k = choose|k: int| 0 <= k < all@.len() && all@[k] == access;
                            if k < before.len() {
                                assert(before[k] == access);
                                assert(before.contains(access));
                                let j = choose|j: int|
                                    0 <= j < at && *(#[trigger] pairs[j]).1 == access;
                                assert(0 <= j < at + 1 && *pairs[j].1 == access);
                            } else {
                                assert(*pairs[at].1 == access);
                            }
                        }
                        if access.user_id == user_id && exists|j: int|
                            0 <= j < at + 1 && *(#[trigger] pairs[j]).1 == access {
                            let j = choose|j: int|
                                0 <= j < at + 1 && *(#[trigger] pairs[j]).1 == access;
                            if j < at {
                                assert(before.contains(access));
                                let k = choose|k: int| 0 <= k < before.len() && before[k] == access;
                                assert(all@[k] == access);
                            } else {
                                assert(all@[before.len() as int] == access);
                            }
                        }
                    }
                }
            } else {
                proof {
                    assert forall|access: ServiceAccess|
                        all@.contains(access) <==> (access.user_id == user_id && exists|j: int|
                            0 <= j < at + 1 && *(#[trigger] pairs[j]).1 == access) by {
                        if all@.contains(access) {
                            let j = choose|j: int|
                                0 <= j < at && *(#[trigger] pairs[j]).1 == access;
                            assert(0 <= j < at + 1 && *pairs[j].1 == access);
                        }
                        if access.user_id == user_id && exists|j: int|
                            0 <= j < at + 1 && *(#[trigger] pairs[j]).1 == access {
                            let j = choose|j: int|
                                0 <= j < at + 1 && *(#[trigger] pairs[j]).1 == access;
                            assert(j < at);
                        }
                    }
                }
            }
        }
        proof {
            assert forall|access: ServiceAccess|
                all@.contains(access) <==> (access.user_id == user_id && get_spec(
                    self.records(),
                    access.user_id,
                    access.service_id,
                ) == Some(access)) by {
                let key = packed(access.user_id, access.service_id);
                if all@.contains(access) {
                    let j = choose|j: int|
                        0 <= j < pairs.len() && *(#[trigger] pairs[j]).1 == access;
                    assert(stored.contains_key(*pairs[j].0) && stored[*pairs[j].0] == access);
                    assert(*pairs[j].0 == key);
                }
                if access.user_id == user_id && get_spec(
                    self.records(),
                    access.user_id,
                    access.service_id,
                ) == Some(access) {
                    assert(stored.contains_key(key) && stored[key] == access);
                    assert(pairs.contains((&key, &stored[key])));
                    let j = choose|j: int| 0 <= j < pairs.len() && pairs[j] == (&key, &stored[key]);
                    assert(*pairs[j].1 == access);
                }
            }
        }
        Ok(all)
    }

    fn delete(&mut self, user_id: u64, service_id: u64) -> (result: Result<
        Option<ServiceAccess>,
        AppError,
    >) {
        let previous = self.accesses.remove(&pack(user_id, service_id));
        assert(self.records() =~= delete_spec(old(self).records(), user_id, service_id));
        Ok(previous)
    }
}

} // verus!
