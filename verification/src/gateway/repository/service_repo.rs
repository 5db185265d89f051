//! The repository of services.

pub mod in_memory_repo;

use vstd::prelude::*;
use crate::error::AppError;
use crate::model::service::Service;

verus! {

/// The records after `service` is put: it stands under its id, in place
/// of what stood there.
pub open spec fn put_spec(records: Map<u64, Service>, service: Service) -> Map<u64, Service> {
    records.insert(service.service_id, service)
}

/// The record under `service_id`, if there is one.
pub open spec fn get_spec(records: Map<u64, Service>, service_id: u64) -> Option<Service> {
    if records.contains_key(service_id) {
        Some(records[service_id])
    } else {
        None
    }
}

/// The records after the one under `service_id` is deleted.
pub open spec fn delete_spec(records: Map<u64, Service>, service_id: u64) -> Map<u64, Service> {
    records.remove(service_id)
}

/// The records after each of `loaded` is put, in order.
pub open spec fn load_spec(records: Map<u64, Service>, loaded: Seq<Service>) -> Map<u64, Service>
    decreases loaded.len(),
{
    if loaded.len() == 0 {
        records
    } else {
        put_spec(load_spec(records, loaded.drop_last()), loaded.last())
    }
}

/// Whether no two of the services have the same id.
pub open spec fn distinct_ids(services: Seq<Service>) -> bool {
    forall|i: int, j: int|
        0 <= i < services.len() && 0 <= j < services.len() && i != j ==> (
        #[trigger] services[i]).service_id != (#[trigger] services[j]).service_id
}

/// Whether every record stands under its own id.
pub open spec fn keyed_by_id(records: Map<u64, Service>) -> bool {
    forall|id: u64| #[trigger] records.contains_key(id) ==> records[id].service_id == id
}

/// A record that was put is the one that is got under its id.
pub proof fn lemma_put_get(records: Map<u64, Service>, service: Service)
    ensures
        get_spec(put_spec(records, service), service.service_id) == Some(service),
{
}

/// Nothing is got under an id whose record was deleted.
pub proof fn lemma_delete_get(records: Map<u64, Service>, service_id: u64)
    ensures
        get_spec(delete_spec(records, service_id), service_id) is None,
{
}

/// Loading into an empty repository records with different ids leaves as
/// many records as were loaded, each under its id.
pub proof fn lemma_load_distinct(loaded: Seq<Service>)
    requires
        distinct_ids(loaded),
    ensures
        load_spec(Map::empty(), loaded).dom().finite(),
        load_spec(Map::empty(), loaded).len() == loaded.len(),
        forall|i: int|
            0 <= i < loaded.len() ==> get_spec(
                load_spec(Map::empty(), loaded),
                (#[trigger] loaded[i]).service_id,
            ) == Some(loaded[i]),
        forall|id: u64| #[trigger]
            load_spec(Map::empty(), loaded).contains_key(id) ==> exists|i: int|
                0 <= i < loaded.len() && (#[trigger] loaded[i]).service_id == id,
    decreases loaded.len(),
{
    if loaded.len() > 0 {
        let rest = loaded.drop_last();
        let last = loaded.last();
        assert(distinct_ids(rest)) by {
            assert forall|i: int, j: int|
                0 <= i < rest.len() && 0 <= j < rest.len() && i != j implies (
            #[trigger] rest[i]).service_id != (#[trigger] rest[j]).service_id by {
                assert(loaded[i].service_id != loaded[j].service_id);
            }
        }
        lemma_load_distinct(rest);
        let before = load_spec(Map::empty(), rest);
        if before.contains_key(last.service_id) {
            let i = choose|i: int|
                0 <= i < rest.len() && (#[trigger] rest[i]).service_id == last.service_id;
            assert(loaded[i].service_id != loaded[loaded.len() - 1].service_id);
        }
        assert forall|i: int| 0 <= i < loaded.len() implies get_spec(
            load_spec(Map::empty(), loaded),
            (#[trigger] loaded[i]).service_id,
        ) == Some(loaded[i]) by {
            if i < rest.len() {
                assert(rest[i] == loaded[i]);
                assert(loaded[i].service_id != loaded[loaded.len() - 1].service_id);
            }
        }
        assert forall|id: u64| #[trigger]
            load_spec(Map::empty(), loaded).contains_key(id) implies exists|i: int|
            0 <= i < loaded.len() && (#[trigger] loaded[i]).service_id == id by {
            if id == last.service_id {
                assert(loaded[loaded.len() - 1].service_id == id);
            } else {
                let i = choose|i: int| 0 <= i < rest.len() && (#[trigger] rest[i]).service_id == id;
                assert(loaded[i].service_id == id);
            }
        }
    }
}

/// What every repository of services does.
pub trait ServiceRepository: Sync + Send {
    /// The records held: service id to service.
    spec fn records(&self) -> Map<u64, Service>;

    /// Whether the repository is consistent.
    spec fn valid(&self) -> bool;

    /// Takes the records of a data source in, in order.
    fn connect_to_datasource(&mut self, services: &Vec<Service>) -> (result: Result<(), AppError>)
        requires
            old(self).valid(),
        ensures
            final(self).valid(),
            result is Ok,
            final(self).records() == load_spec(old(self).records(), services@),
    ;

    /// Creates or updates a service; returns what stood under its id.
    fn put(&mut self, service: Service) -> (result: Result<Option<Service>, AppError>)
        requires
            old(self).valid(),
        ensures
            final(self).valid(),
            result == Ok::<Option<Service>, AppError>(
                get_spec(old(self).records(), service.service_id),
            ),
            final(self).records() == put_spec(old(self).records(), service),
    ;

    /// The service under `service_id`, if there is one.
    fn get(&self, service_id: u64) -> (result: Result<Option<Service>, AppError>)
        requires
            self.valid(),
        ensures
            result == Ok::<Option<Service>, AppError>(get_spec(self.records(), service_id)),
    ;

    /// All services, each once, in no particular order.
    fn get_all(&self) -> (result: Result<Vec<Service>, AppError>)
        requires
            self.valid(),
        ensures
            result matches Ok(all) && all@.len() == self.records().len() && all@.no_duplicates()
                && all@.to_set() == self.records().values(),
    ;

    /// Deletes a service; returns what stood under its id.
    fn delete(&mut self, service_id: u64) -> (result: Result<Option<Service>, AppError>)
        requires
            old(self).valid(),
        ensures
            final(self).valid(),
            result == Ok::<Option<Service>, AppError>(get_spec(old(self).records(), service_id)),
            final(self).records() == delete_spec(old(self).records(), service_id),
    ;
}

} // verus!
