//! A repository of users that lives in memory.

use vstd::prelude::*;
use std::collections::HashMap;
use vstd::std_specs::hash::spec_hash_map_iter;
use vstd::std_specs::iter::IteratorSpec;
use crate::error::AppError;
use crate::gateway::repository::user_repo::{delete_spec, get_spec, keyed_by_id, load_spec};
use crate::gateway::repository::user_repo::{put_spec, UserRepository};
use crate::model::user::User;

verus! {

broadcast use vstd::std_specs::hash::group_hash_axioms;

/// Users by their id, in a hash map.
pub struct InMemUserRepo {
    users: HashMap<u64, User>,
}

impl InMemUserRepo {
    /// An empty repository.
    pub fn new() -> (repo: InMemUserRepo)
        ensures
            repo.valid(),
            repo.records() == Map::<u64, User>::empty(),
    {
        InMemUserRepo { users: HashMap::new() }
    }
}

impl UserRepository for InMemUserRepo {
    closed spec fn records(&self) -> Map<u64, User> {
        self.users@
    }

    closed spec fn valid(&self) -> bool {
        keyed_by_id(self.users@)
    }

    fn connect_to_datasource(&mut self, users: &Vec<User>) -> (result: Result<(), AppError>) {
        let mut i: usize = 0;
        assert(users@.take(0) =~= Seq::<User>::empty());
        while i < users.len()
            invariant
                i <= users.len(),
                self.valid(),
                self.records() == load_spec(old(self).records(), users@.take(i as int)),
            decreases users.len() - i,
        {
            proof {
                let next = users@.take(i + 1);
                assert(next.drop_last() =~= users@.take(i as int));
                assert(next.last() == users@[i as int]);
            }
            let _ = self.put(users[i].clone());
            i = i + 1;
        }
        assert(users@.take(i as int) =~= users@);
        Ok(())
    }

    fn put(&mut self, user: User) -> (result: Result<Option<User>, AppError>) {
        Ok(self.users.insert(user.user_id, user))
    }

    fn get(&self, user_id: u64) -> (result: Result<Option<User>, AppError>) {
        match self.users.get(&user_id) {
            Some(user) => Ok(Some(user.clone())),
            None => Ok(None),
        }
    }

    fn get_all(&self) -> (result: Result<Vec<User>, AppError>) {
        let mut all: Vec<User> = Vec::new();
        let ghost pairs = spec_hash_map_iter(&self.users).remaining();
        for entry in it: self.users.iter()
            invariant
                it.seq() == pairs,
                all@.len() == it.index(),
                forall|j: int| 0 <= j < all@.len() ==> all@[j] == *pairs[j].1,
        {
            all.push(entry.1.clone());
        }
        proof {
            let records = self.users@;
            assert(pairs.no_duplicates());
            assert forall|a: int, b: int|
                0 <= a < all@.len() && 0 <= b < all@.len() && a != b implies all@[a] != all@[b] by {
                assert(records.contains_key(*pairs[a].0) && records[*pairs[a].0] == *pairs[a].1);
                assert(records.contains_key(*pairs[b].0) && records[*pairs[b].0] == *pairs[b].1);
                if all@[a] == all@[b] {
                    assert(*pairs[a].0 == *pairs[b].0);
                    assert(pairs[a] == pairs[b]);
                }
            }
            assert forall|s: User| all@.to_set().contains(s) <==> records.values().contains(
                s,
            ) by {
                if all@.to_set().contains(s) {
                    let j = choose|j: int| 0 <= j < all@.len() && all@[j] == s;
                    assert(records.contains_key(*pairs[j].0) && records[*pairs[j].0] == *pairs[j].1);
                }
                if records.values().contains(s) {
                    let k = choose|k: u64| records.contains_key(k) && records[k] == s;
                    assert(pairs.contains((&k, &records[k])));
                    let j = choose|j: int| 0 <= j < pairs.len() && pairs[j] == (&k, &records[k]);
                    assert(all@[j] == s);
                }
            }
            assert(all@.to_set() =~= records.values());
        }
        Ok(all)
    }

    fn delete(&mut self, user_id: u64) -> (result: Result<Option<User>, AppError>) {
        Ok(self.users.remove(&user_id))
    }
}

} // verus!
