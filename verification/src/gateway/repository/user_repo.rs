//! The repository of users.

pub mod in_memory_repo;

use vstd::prelude::*;
use crate::error::AppError;
use crate::model::user::User;

verus! {

/// The records after `user` is put: it stands under its id, in place
/// of what stood there.
pub open spec fn put_spec(records: Map<u64, User>, user: User) -> Map<u64, User> {
    records.insert(user.user_id, user)
}

/// The record under `user_id`, if there is one.
pub open spec fn get_spec(records: Map<u64, User>, user_id: u64) -> Option<User> {
    if records.contains_key(user_id) {
        Some(records[user_id])
    } else {
        None
    }
}

/// The records after the one under `user_id` is deleted.
pub open spec fn delete_spec(records: Map<u64, User>, user_id: u64) -> Map<u64, User> {
    records.remove(user_id)
}

/// The records after each of `loaded` is put, in order.
pub open spec fn load_spec(records: Map<u64, User>, loaded: Seq<User>) -> Map<u64, User>
    decreases loaded.len(),
{
    if loaded.len() == 0 {
        records
    } else {
        put_spec(load_spec(records, loaded.drop_last()), loaded.last())
    }
}

/// Whether no two of the users have the same id.
pub open spec fn distinct_ids(users: Seq<User>) -> bool {
    forall|i: int, j: int|
        0 <= i < users.len() && 0 <= j < users.len() && i != j ==> (
        #[trigger] users[i]).user_id != (#[trigger] users[j]).user_id
}

/// Whether every record stands under its own id.
pub open spec fn keyed_by_id(records: Map<u64, User>) -> bool {
    forall|id: u64| #[trigger] records.contains_key(id) ==> records[id].user_id == id
}

/// A record that was put is the one that is got under its id.
pub proof fn lemma_put_get(records: Map<u64, User>, user: User)
    ensures
        get_spec(put_spec(records, user), user.user_id) == Some(user),
{
}

/// Nothing is got under an id whose record was deleted.
pub proof fn lemma_delete_get(records: Map<u64, User>, user_id: u64)
    ensures
        get_spec(delete_spec(records, user_id), user_id) is None,
{
}

/// Loading into an empty repository records with different ids leaves as
/// many records as were loaded, each under its id.
pub proof fn lemma_load_distinct(loaded: Seq<User>)
    requires
        distinct_ids(loaded),
    ensures
        load_spec(Map::empty(), loaded).dom().finite(),
        load_spec(Map::empty(), loaded).len() == loaded.len(),
        forall|i: int|
            0 <= i < loaded.len() ==> get_spec(
                load_spec(Map::empty(), loaded),
                (#[trigger] loaded[i]).user_id,
            ) == Some(loaded[i]),
        forall|id: u64| #[trigger]
            load_spec(Map::empty(), loaded).contains_key(id) ==> exists|i: int|
                0 <= i < loaded.len() && (#[trigger] loaded[i]).user_id == id,
    decreases loaded.len(),
{
    if loaded.len() > 0 {
        let rest = loaded.drop_last();
        let last = loaded.last();
        assert(distinct_ids(rest)) by {
            assert forall|i: int, j: int|
                0 <= i < rest.len() && 0 <= j < rest.len() && i != j implies (
            #[trigger] rest[i]).user_id != (#[trigger] rest[j]).user_id by {
                assert(loaded[i].user_id != loaded[j].user_id);
            }
        }
        lemma_load_distinct(rest);
        let before = load_spec(Map::empty(), rest);
        if before.contains_key(last.user_id) {
            let i = choose|i: int|
                0 <= i < rest.len() && (#[trigger] rest[i]).user_id == last.user_id;
            assert(loaded[i].user_id != loaded[loaded.len() - 1].user_id);
        }
        assert forall|i: int| 0 <= i < loaded.len() implies get_spec(
            load_spec(Map::empty(), loaded),
            (#[trigger] loaded[i]).user_id,
        ) == Some(loaded[i]) by {
            if i < rest.len() {
                assert(rest[i] == loaded[i]);
                assert(loaded[i].user_id != loaded[loaded.len() - 1].user_id);
            }
        }
        assert forall|id: u64| #[trigger]
            load_spec(Map::empty(), loaded).contains_key(id) implies exists|i: int|
            0 <= i < loaded.len() && (#[trigger] loaded[i]).user_id == id by {
            if id == last.user_id {
                assert(loaded[loaded.len() - 1].user_id == id);
            } else {
                let i = choose|i: int| 0 <= i < rest.len() && (#[trigger] rest[i]).user_id == id;
                assert(loaded[i].user_id == id);
            }
        }
    }
}

/// What every repository of users does.
pub trait UserRepository: Sync + Send {
    /// The records held: user id to user.
    spec fn records(&self) -> Map<u64, User>;

    /// Whether the repository is consistent.
    spec fn valid(&self) -> bool;

    /// Takes the records of a data source in, in order.
    fn connect_to_datasource(&mut self, users: &Vec<User>) -> (result: Result<(), AppError>)
        requires
            old(self).valid(),
        ensures
            final(self).valid(),
            result is Ok,
            final(self).records() == load_spec(old(self).records(), users@),
    ;

    /// Creates or updates a user; returns what stood under its id.
    fn put(&mut self, user: User) -> (result: Result<Option<User>, AppError>)
        requires
            old(self).valid(),
        ensures
            final(self).valid(),
            result == Ok::<Option<User>, AppError>(
                get_spec(old(self).records(), user.user_id),
            ),
            final(self).records() == put_spec(old(self).records(), user),
    ;

    /// The user under `user_id`, if there is one.
    fn get(&self, user_id: u64) -> (result: Result<Option<User>, AppError>)
        requires
            self.valid(),
        ensures
            result == Ok::<Option<User>, AppError>(get_spec(self.records(), user_id)),
    ;

    /// All users, each once, in no particular order.
    fn get_all(&self) -> (result: Result<Vec<User>, AppError>)
        requires
            self.valid(),
        ensures
            result matches Ok(all) && all@.len() == self.records().len() && all@.no_duplicates()
                && all@.to_set() == self.records().values(),
    ;

    /// Deletes a user; returns what stood under its id.
    fn delete(&mut self, user_id: u64) -> (result: Result<Option<User>, AppError>)
        requires
            old(self).valid(),
        ensures
            final(self).valid(),
            result == Ok::<Option<User>, AppError>(get_spec(old(self).records(), user_id)),
            final(self).records() == delete_spec(old(self).records(), user_id),
    ;
}

} // verus!
