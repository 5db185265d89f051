//! The repository of grants: which user may use which service.

pub mod in_memory_repo;

use vstd::prelude::*;
use crate::error::AppError;
use crate::model::access::ServiceAccess;

verus! {

/// The user and service that a grant stands under.
pub open spec fn key_of(access: ServiceAccess) -> (u64, u64) {
    (access.user_id, access.service_id)
}

/// The records after `access` is put: it stands under its user and
/// service, in place of what stood there.
pub open spec fn put_spec(records: Map<(u64, u64), ServiceAccess>, access: ServiceAccess) -> Map<
    (u64, u64),
    ServiceAccess,
> {
    records.insert(key_of(access), access)
}

/// The record under `user_id` and `service_id`, if there is one.
pub open spec fn get_spec(records: Map<(u64, u64), ServiceAccess>, user_id: u64, service_id: u64) -> Option<
    ServiceAccess,
> {
    if records.contains_key((user_id, service_id)) {
        Some(records[(user_id, service_id)])
    } else {
        None
    }
}

/// The records after the one under `user_id` and `service_id` is deleted.
pub open spec fn delete_spec(
    records: Map<(u64, u64), ServiceAccess>,
    user_id: u64,
    service_id: u64,
) -> Map<(u64, u64), ServiceAccess> {
    records.remove((user_id, service_id))
}

/// The records after each of `loaded` is put, in order.
pub open spec fn load_spec(records: Map<(u64, u64), ServiceAccess>, loaded: Seq<ServiceAccess>) -> Map<
    (u64, u64),
    ServiceAccess,
>
    decreases loaded.len(),
{
    if loaded.len() == 0 {
        records
    } else {
        put_spec(load_spec(records, loaded.drop_last()), loaded.last())
    }
}

/// Whether no two of the grants are the same.
pub open spec fn distinct_grants(accesses: Seq<ServiceAccess>) -> bool {
    forall|i: int, j: int|
        0 <= i < accesses.len() && 0 <= j < accesses.len() && i != j ==> key_of(
            #[trigger] accesses[i],
        ) != key_of(#[trigger] accesses[j])
}

/// Whether every record stands under its own user and service.
pub open spec fn keyed_by_grant(records: Map<(u64, u64), ServiceAccess>) -> bool {
    forall|key: (u64, u64)| #[trigger] records.contains_key(key) ==> key_of(records[key]) == key
}

/// A record that was put is the one that is got under its user and service.
pub proof fn lemma_put_get(records: Map<(u64, u64), ServiceAccess>, access: ServiceAccess)
    ensures
        get_spec(put_spec(records, access), access.user_id, access.service_id) == Some(access),
{
}

/// Nothing is got under a user and service whose record was deleted.
pub proof fn lemma_delete_get(
    records: Map<(u64, u64), ServiceAccess>,
    user_id: u64,
    service_id: u64,
)
    ensures
        get_spec(delete_spec(records, user_id, service_id), user_id, service_id) is None,
{
}

/// Loading into an empty repository grants that are all different leaves
/// as many records as were loaded, each under its user and service.
pub proof fn lemma_load_distinct(loaded: Seq<ServiceAccess>)
    requires
        distinct_grants(loaded),
    ensures
        load_spec(Map::empty(), loaded).dom().finite(),
        load_spec(Map::empty(), loaded).len() == loaded.len(),
        forall|i: int|
            0 <= i < loaded.len() ==> get_spec(
                load_spec(Map::empty(), loaded),
                (#[trigger] loaded[i]).user_id,
                loaded[i].service_id,
            ) == Some(loaded[i]),
        forall|key: (u64, u64)| #[trigger]
            load_spec(Map::empty(), loaded).contains_key(key) ==> exists|i: int|
                0 <= i < loaded.len() && key_of(#[trigger] loaded[i]) == key,
    decreases loaded.len(),
{
    if loaded.len() > 0 {
        let rest = loaded.drop_last();
        let last = loaded.last();
        assert(distinct_grants(rest)) by {
            assert forall|i: int, j: int|
                0 <= i < rest.len() && 0 <= j < rest.len() && i != j implies key_of(
                #[trigger] rest[i],
            ) != key_of(#[trigger] rest[j]) by {
                assert(key_of(loaded[i]) != key_of(loaded[j]));
            }
        }
        lemma_load_distinct(rest);
        let before = load_spec(Map::empty(), rest);
        if before.contains_key(key_of(last)) {
            let i = choose|i: int| 0 <= i < rest.len() && key_of(#[trigger] rest[i]) == key_of(last);
            assert(key_of(loaded[i]) != key_of(loaded[loaded.len() - 1]));
        }
        assert forall|i: int| 0 <= i < loaded.len() implies get_spec(
            load_spec(Map::empty(), loaded),
            (#[trigger] loaded[i]).user_id,
            loaded[i].service_id,
        ) == Some(loaded[i]) by {
            if i < rest.len() {
                assert(rest[i] == loaded[i]);
                assert(key_of(loaded[i]) != key_of(loaded[loaded.len() - 1]));
            }
        }
        assert forall|key: (u64, u64)| #[trigger]
            load_spec(Map::empty(), loaded).contains_key(key) implies exists|i: int|
            0 <= i < loaded.len() && key_of(#[trigger] loaded[i]) == key by {
            if key == key_of(last) {
                assert(key_of(loaded[loaded.len() - 1]) == key);
            } else {
                let i = choose|i: int| 0 <= i < rest.len() && key_of(#[trigger] rest[i]) == key;
                assert(key_of(loaded[i]) == key);
            }
        }
    }
}

/// What every repository of grants does.
pub trait AccessRepository: Sync + Send {
    /// The records held: user and service to grant.
    spec fn records(&self) -> Map<(u64, u64), ServiceAccess>;

    /// Whether the repository is consistent.
    spec fn valid(&self) -> bool;

    /// Takes the records of a data source in, in order.
    fn connect_to_datasource(&mut self, accesses: &Vec<ServiceAccess>) -> (result: Result<
        (),
        AppError,
    >)
        requires
            old(self).valid(),
        ensures
            final(self).valid(),
            result is Ok,
            final(self).records() == load_spec(old(self).records(), accesses@),
    ;

    /// Creates or updates a grant; returns what stood under its user and service.
    fn put(&mut self, access: ServiceAccess) -> (result: Result<Option<ServiceAccess>, AppError>)
        requires
            old(self).valid(),
        ensures
            final(self).valid(),
            result == Ok::<Option<ServiceAccess>, AppError>(
                get_spec(old(self).records(), access.user_id, access.service_id),
            ),
            final(self).records() == put_spec(old(self).records(), access),
    ;

    /// The grant of `service_id` to `user_id`, if there is one.
    fn get(&self, user_id: u64, service_id: u64) -> (result: Result<
        Option<ServiceAccess>,
        AppError,
    >)
        requires
            self.valid(),
        ensures
            result == Ok::<Option<ServiceAccess>, AppError>(
                get_spec(self.records(), user_id, service_id),
            ),
    ;

    /// All grants to `user_id`, each once, in no particular order.
    fn get_all_for_user(&self, user_id: u64) -> (result: Result<Vec<ServiceAccess>, AppError>)
        requires
            self.valid(),
        ensures
            result matches Ok(all) && all@.no_duplicates() && forall|access: ServiceAccess|
                all@.contains(access) <==> (access.user_id == user_id && get_spec(
                    self.records(),
                    access.user_id,
                    access.service_id,
                ) == Some(access)),
    ;

    /// Deletes a grant; returns what stood under its user and service.
    fn delete(&mut self, user_id: u64, service_id: u64) -> (result: Result<
        Option<ServiceAccess>,
        AppError,
    >)
        requires
            old(self).valid(),
        ensures
            final(self).valid(),
            result == Ok::<Option<ServiceAccess>, AppError>(
                get_spec(old(self).records(), user_id, service_id),
            ),
            final(self).records() == delete_spec(old(self).records(), user_id, service_id),
    ;
}

} // verus!
