use std::collections::HashMap;

use trust0::gateway::repository::access_repo::in_memory_repo::InMemAccessRepo;
use trust0::gateway::repository::access_repo::AccessRepository;
use trust0::gateway::repository::service_repo::in_memory_repo::InMemServiceRepo;
use trust0::gateway::repository::service_repo::ServiceRepository;
use trust0::gateway::repository::user_repo::in_memory_repo::InMemUserRepo;
use trust0::gateway::repository::user_repo::UserRepository;
use trust0::model::access::ServiceAccess;
use trust0::model::service::{Service, Transport};
use trust0::model::user::{Status, User};

fn access(user_id: u64, service_id: u64) -> ServiceAccess {
    ServiceAccess { user_id, service_id }
}

fn service(service_id: u64, name: &str, transport: Transport, host: &str, port: u16) -> Service {
    Service {
        service_id,
        name: name.to_string(),
        transport,
        host: host.to_string(),
        port,
    }
}

fn three_services() -> [Service; 3] {
    [
        service(1, "svc1", Transport::TCP, "site1", 100),
        service(2, "svc2", Transport::TCP, "site2", 200),
        service(3, "svc3", Transport::UDP, "site3", 300),
    ]
}

#[test]
fn inmemaccessrepo_connect_to_datasource_when_valid_filepath() {
    let loaded = vec![
        access(100, 200),
        access(100, 203),
        access(100, 204),
        access(101, 202),
        access(101, 203),
    ];
    let mut access_repo = InMemAccessRepo::new();

    if let Err(err) = access_repo.connect_to_datasource(&loaded) {
        panic!("Unexpected result: err={:?}", &err);
    }

    let expected_access_db_map: HashMap<(u64, u64), ServiceAccess> = HashMap::from([
        ((100, 200), access(100, 200)),
        ((100, 203), access(100, 203)),
        ((100, 204), access(100, 204)),
        ((101, 202), access(101, 202)),
        ((101, 203), access(101, 203)),
    ]);

    let mut actual: Vec<ServiceAccess> = access_repo.get_all_for_user(100).unwrap();
    actual.extend(access_repo.get_all_for_user(101).unwrap());
    let actual_access_db_map: HashMap<(u64, u64), ServiceAccess> =
        actual.iter().map(|a| ((a.user_id, a.service_id), *a)).collect();

    assert_eq!(actual.len(), expected_access_db_map.len());
    assert_eq!(actual_access_db_map.len(), expected_access_db_map.len());
    assert_eq!(
        actual_access_db_map
            .iter()
            .filter(|entry| !expected_access_db_map.contains_key(entry.0))
            .count(),
        0
    );
    for (key, expected) in &expected_access_db_map {
        assert_eq!(access_repo.get(key.0, key.1).unwrap(), Some(*expected));
    }
}

#[test]
fn inmemaccessrepo_put() {
    let mut access_repo = InMemAccessRepo::new();
    let access = access(1, 2);

    match access_repo.put(access) {
        Err(err) => panic!("Unexpected result: err={:?}", &err),
        Ok(previous) => assert!(previous.is_none()),
    }

    let stored_entry = access_repo.get(1, 2).unwrap();

    assert!(stored_entry.is_some());
    assert_eq!(stored_entry.unwrap(), access);
    assert_eq!(access_repo.put(access).unwrap(), Some(access));
}

#[test]
fn inmemaccessrepo_get_when_invalid_user() {
    let mut access_repo = InMemAccessRepo::new();
    access_repo.put(access(1, 2)).unwrap();

    let result = access_repo.get(10, 2);

    if let Err(err) = &result {
        panic!("Unexpected result: err={:?}", &err)
    }

    assert!(result.unwrap().is_none());
}

#[test]
fn inmemaccessrepo_get_when_invalid_service() {
    let mut access_repo = InMemAccessRepo::new();
    access_repo.put(access(1, 2)).unwrap();

    let result = access_repo.get(1, 20);

    if let Err(err) = &result {
        panic!("Unexpected result: err={:?}", &err)
    }

    assert!(result.unwrap().is_none());
}

#[test]
fn inmemaccessrepo_get_when_valid_user_and_service() {
    let mut access_repo = InMemAccessRepo::new();
    let accesses = [access(1, 2), access(3, 4)];
    access_repo.put(accesses[0]).unwrap();
    access_repo.put(accesses[1]).unwrap();

    let result = access_repo.get(1, 2);

    if let Err(err) = &result {
        panic!("Unexpected result: err={:?}", &err)
    }

    let actual_access = result.unwrap();

    assert!(actual_access.is_some());
    assert_eq!(actual_access.unwrap(), accesses[0]);
}

fn repo_with_three_accesses() -> InMemAccessRepo {
    let mut access_repo = InMemAccessRepo::new();
    for a in [access(1, 2), access(3, 4), access(1, 5)] {
        access_repo.put(a).unwrap();
    }
    access_repo
}

#[test]
fn inmemaccessrepo_get_all_for_user_when_invalid_user() {
    let access_repo = repo_with_three_accesses();

    let result = access_repo.get_all_for_user(10);

    if let Err(err) = &result {
        panic!("Unexpected result: err={:?}", &err)
    }

    assert_eq!(result.unwrap().len(), 0);
}

#[test]
fn inmemaccessrepo_get_all_for_user_when_valid_user() {
    let access_repo = repo_with_three_accesses();

    let result = access_repo.get_all_for_user(1);

    if let Err(err) = &result {
        panic!("Unexpected result: err={:?}", &err)
    }

    let actual_accesses = result.unwrap();
    assert_eq!(actual_accesses.len(), 2);

    let expected_access_db_map: HashMap<(u64, u64), ServiceAccess> =
        HashMap::from([((1, 2), access(1, 2)), ((1, 5), access(1, 5))]);

    assert_eq!(
        actual_accesses
            .iter()
            .filter(|entry| !expected_access_db_map
                .contains_key(&(entry.user_id, entry.service_id)))
            .count(),
        0
    );
    assert_ne!(actual_accesses[0], actual_accesses[1]);
}

#[test]
fn inmemaccessrepo_delete_when_invalid_user() {
    let mut access_repo = InMemAccessRepo::new();
    access_repo.put(access(1, 2)).unwrap();

    let result = access_repo.delete(10, 2);

    if let Err(err) = &result {
        panic!("Unexpected result: err={:?}", &err)
    }

    assert!(result.unwrap().is_none());
    assert!(access_repo.get(1, 2).unwrap().is_some());
}

#[test]
fn inmemaccessrepo_delete_when_invalid_service() {
    let mut access_repo = InMemAccessRepo::new();
    access_repo.put(access(1, 2)).unwrap();

    let result = access_repo.delete(1, 20);

    if let Err(err) = &result {
        panic!("Unexpected result: err={:?}", &err)
    }

    assert!(result.unwrap().is_none());
    assert!(access_repo.get(1, 2).unwrap().is_some());
}

#[test]
fn inmemaccessrepo_delete_when_valid_user_and_service() {
    let mut access_repo = InMemAccessRepo::new();
    let access = access(1, 2);
    access_repo.put(access).unwrap();

    let result = access_repo.delete(1, 2);

    if let Err(err) = &result {
        panic!("Unexpected result: err={:?}", &err)
    }

    let actual_prev_access = result.unwrap();

    assert!(actual_prev_access.is_some());
    assert_eq!(actual_prev_access.unwrap(), access);
    assert!(access_repo.get(1, 2).unwrap().is_none());
}

#[test]
fn inmemaccessrepo_keeps_user_and_service_apart() {
    let mut access_repo = InMemAccessRepo::new();
    access_repo.put(access(1, 2)).unwrap();
    access_repo.put(access(2, 1)).unwrap();
    access_repo.put(access(u64::MAX, u64::MAX)).unwrap();
    access_repo.put(access(0, u64::MAX)).unwrap();
    access_repo.put(access(u64::MAX, 0)).unwrap();

    assert_eq!(access_repo.get(1, 2).unwrap(), Some(access(1, 2)));
    assert_eq!(access_repo.get(2, 1).unwrap(), Some(access(2, 1)));
    assert_eq!(access_repo.get(1, 1).unwrap(), None);
    assert_eq!(access_repo.get_all_for_user(u64::MAX).unwrap().len(), 2);
    assert_eq!(access_repo.get_all_for_user(0).unwrap(), vec![access(0, u64::MAX)]);
    assert_eq!(access_repo.delete(u64::MAX, 0).unwrap(), Some(access(u64::MAX, 0)));
    assert_eq!(access_repo.get_all_for_user(u64::MAX).unwrap(), vec![access(u64::MAX, u64::MAX)]);
}

#[test]
fn inmemsvcrepo_connect_to_datasource_when_valid_filepath() {
    let loaded = vec![
        service(200, "Service200", Transport::TCP, "localhost", 8200),
        service(201, "Service201", Transport::TCP, "localhost", 8201),
        service(202, "Service202", Transport::TCP, "localhost", 8202),
        service(203, "chat-tcp", Transport::TCP, "localhost", 8500),
        service(204, "echo-udp", Transport::UDP, "localhost", 8600),
    ];
    let mut service_repo = InMemServiceRepo::new();

    if let Err(err) = service_repo.connect_to_datasource(&loaded) {
        panic!("Unexpected result: err={:?}", &err);
    }

    let expected_service_db_map: HashMap<u64, Service> =
        loaded.iter().map(|s| (s.service_id, s.clone())).collect();

    let actual_service_db_map: HashMap<u64, Service> = service_repo
        .get_all()
        .unwrap()
        .iter()
        .map(|s| (s.service_id, s.clone()))
        .collect();

    assert_eq!(actual_service_db_map.len(), expected_service_db_map.len());
    assert_eq!(
        actual_service_db_map
            .iter()
            .filter(|entry| !expected_service_db_map.contains_key(entry.0))
            .count(),
        0
    );
    assert_eq!(actual_service_db_map, expected_service_db_map);
}

#[test]
fn inmemsvcrepo_put() {
    let mut service_repo = InMemServiceRepo::new();
    let service = service(1, "svc1", Transport::TCP, "site1", 100);

    match service_repo.put(service.clone()) {
        Err(err) => panic!("Unexpected result: err={:?}", &err),
        Ok(previous) => assert!(previous.is_none()),
    }

    let stored_entry = service_repo.get(1).unwrap();

    assert!(stored_entry.is_some());
    assert_eq!(stored_entry.unwrap(), service);
}

#[test]
fn inmemsvcrepo_get_when_invalid_service() {
    let mut service_repo = InMemServiceRepo::new();
    service_repo.put(service(1, "svc1", Transport::TCP, "site1", 100)).unwrap();

    let result = service_repo.get(10);

    if let Err(err) = &result {
        panic!("Unexpected result: err={:?}", &err)
    }

    assert!(result.unwrap().is_none());
}

#[test]
fn inmemsvcrepo_get_when_valid_service() {
    let mut service_repo = InMemServiceRepo::new();
    let services = three_services();
    for s in &services {
        service_repo.put(s.clone()).unwrap();
    }

    let result = service_repo.get(2);

    if let Err(err) = &result {
        panic!("Unexpected result: err={:?}", &err)
    }

    let actual_service = result.unwrap();

    assert!(actual_service.is_some());
    assert_eq!(actual_service.unwrap(), services[1]);
}

#[test]
fn inmemsvcrepo_get_all() {
    let mut service_repo = InMemServiceRepo::new();
    let services = three_services();
    for s in &services {
        service_repo.put(s.clone()).unwrap();
    }

    let result = service_repo.get_all();

    if let Err(err) = &result {
        panic!("Unexpected result: err={:?}", &err)
    }

    let actual_services = result.unwrap();
    assert_eq!(actual_services.len(), 3);

    let expected_access_db_map: HashMap<u64, Service> =
        services.iter().map(|s| (s.service_id, s.clone())).collect();

    assert_eq!(
        actual_services
            .iter()
            .filter(|entry| !expected_access_db_map.contains_key(&entry.service_id))
            .count(),
        0
    );
    for s in &services {
        assert!(actual_services.contains(s));
    }
}

#[test]
fn inmemsvcrepo_delete_when_invalid_service() {
    let mut service_repo = InMemServiceRepo::new();
    service_repo.put(service(1, "svc1", Transport::TCP, "site1", 100)).unwrap();

    let result = service_repo.delete(10);

    if let Err(err) = &result {
        panic!("Unexpected result: err={:?}", &err)
    }

    assert!(result.unwrap().is_none());
    assert!(service_repo.get(1).unwrap().is_some());
}

#[test]
fn inmemsvcrepo_delete_when_valid_service() {
    let mut service_repo = InMemServiceRepo::new();
    let service = service(1, "svc1", Transport::TCP, "site1", 100);
    service_repo.put(service.clone()).unwrap();

    let result = service_repo.delete(1);

    if let Err(err) = &result {
        panic!("Unexpected result: err={:?}", &err)
    }

    let actual_prev_service = result.unwrap();

    assert!(actual_prev_service.is_some());
    assert_eq!(actual_prev_service.unwrap(), service);
    assert!(service_repo.get(1).unwrap().is_none());
}

#[test]
fn inmemsvcrepo_put_replaces_the_whole_record() {
    let mut service_repo = InMemServiceRepo::new();
    let first = service(1, "svc1", Transport::TCP, "site1", 100);
    let second = service(1, "renamed", Transport::UDP, "site9", 900);
    service_repo.put(first.clone()).unwrap();

    assert_eq!(service_repo.put(second.clone()).unwrap(), Some(first));

    assert_eq!(service_repo.get(1).unwrap(), Some(second));
    assert_eq!(service_repo.get_all().unwrap().len(), 1);
}

#[test]
fn inmemsvcrepo_connect_to_datasource_keeps_the_last_of_equal_ids() {
    let mut service_repo = InMemServiceRepo::new();
    let loaded = vec![
        service(1, "first", Transport::TCP, "a", 1),
        service(2, "other", Transport::TCP, "b", 2),
        service(1, "last", Transport::UDP, "c", 3),
    ];

    service_repo.connect_to_datasource(&loaded).unwrap();

    assert_eq!(service_repo.get_all().unwrap().len(), 2);
    assert_eq!(service_repo.get(1).unwrap(), Some(loaded[2].clone()));
    assert_eq!(service_repo.get(2).unwrap(), Some(loaded[1].clone()));
}

#[test]
fn inmemuserrepo_put_get_delete() {
    let mut user_repo = InMemUserRepo::new();
    let active = User::new(100, "user100", Status::Active);
    let inactive = User::new(101, "user101", Status::Inactive);

    assert_eq!(user_repo.put(active.clone()).unwrap(), None);
    assert_eq!(user_repo.put(inactive.clone()).unwrap(), None);

    assert_eq!(user_repo.get(100).unwrap(), Some(active.clone()));
    assert_eq!(user_repo.get(102).unwrap(), None);
    assert_eq!(user_repo.get_all().unwrap().len(), 2);
    assert_eq!(user_repo.delete(100).unwrap(), Some(active));
    assert_eq!(user_repo.get(100).unwrap(), None);
    assert_eq!(user_repo.get_all().unwrap(), vec![inactive]);
    assert_eq!(user_repo.delete(100).unwrap(), None);
}

#[test]
fn inmemuserrepo_connect_to_datasource() {
    let mut user_repo = InMemUserRepo::new();
    let loaded = vec![
        User::new(100, "user100", Status::Active),
        User::new(101, "user101", Status::Inactive),
        User::new(102, "user102", Status::default()),
    ];

    user_repo.connect_to_datasource(&loaded).unwrap();

    assert_eq!(user_repo.get_all().unwrap().len(), loaded.len());
    for user in &loaded {
        assert_eq!(user_repo.get(user.user_id).unwrap(), Some(user.clone()));
    }
    assert!(user_repo.get(102).unwrap().unwrap().status == Status::Active);
}
