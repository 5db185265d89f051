use trust0::crypto::alpn::{create_service_protocol, parse, Protocol};
use trust0::error::AppError;
use trust0::gateway::config::{AppConfig, AppConfigArgs, DataSource, TlsMaterial};
use trust0::gateway::repository::access_repo::in_memory_repo::InMemAccessRepo;
use trust0::gateway::repository::access_repo::AccessRepository;
use trust0::gateway::repository::user_repo::in_memory_repo::InMemUserRepo;
use trust0::gateway::repository::user_repo::UserRepository;
use trust0::gateway::service::auth::authorize;
use trust0::gateway::service::manager::GatewayServiceMgr;
use trust0::model::access::ServiceAccess;
use trust0::model::service::{Service, Transport};
use trust0::model::user::{Status, User};
use trust0::proxy::event::{ProxyEvent, ProxyExecutorEvent};
use trust0::proxy::tunnel::{
    Direction, PumpAction, PumpRead, Tunnel, TCP_CHUNK_SIZE, UDP_CHUNK_SIZE,
};

fn closed(key: &str) -> PumpAction {
    PumpAction::Reap(ProxyEvent::Closed(key.to_string()))
}

#[test]
fn tunnel_carries_bytes_and_reports_closed_once() {
    let mut tunnel = Tunnel::new("k200");

    assert_eq!(
        tunnel.on_read(Direction::Forward, PumpRead::Data(b"hello".to_vec())),
        PumpAction::Write(b"hello".to_vec())
    );
    assert!(!tunnel.is_closed());

    assert_eq!(tunnel.on_read(Direction::Forward, PumpRead::Eof), PumpAction::HalfClose);
    assert!(!tunnel.is_closed());
    assert!(!tunnel.is_pump_open(Direction::Forward));
    assert!(tunnel.is_pump_open(Direction::Backward));
    assert_eq!(tunnel.on_read(Direction::Backward, PumpRead::Eof), closed("k200"));
    assert!(tunnel.is_closed());

    assert_eq!(tunnel.on_read(Direction::Backward, PumpRead::Eof), PumpAction::Ignore);
    assert_eq!(tunnel.on_read(Direction::Forward, PumpRead::Failed), PumpAction::Ignore);
    assert_eq!(tunnel.close(), PumpAction::Ignore);
    assert_eq!(tunnel.proxy_key(), "k200");
}

#[test]
fn tunnel_delivers_a_stream_whatever_the_chunks() {
    let stream: Vec<u8> = (0..5000u32).map(|i| (i % 251) as u8).collect();
    for chunk_size in [1usize, 7, 1023, TCP_CHUNK_SIZE, 4999, 5000, UDP_CHUNK_SIZE] {
        let mut tunnel = Tunnel::new("k");
        let mut far: Vec<u8> = Vec::new();
        for chunk in stream.chunks(chunk_size) {
            assert_eq!(
                tunnel.on_read(Direction::Backward, PumpRead::WouldBlock),
                PumpAction::Retry
            );
            match tunnel.on_read(Direction::Forward, PumpRead::Data(chunk.to_vec())) {
                PumpAction::Write(bytes) => far.extend_from_slice(&bytes),
                other => panic!("Unexpected action: {:?}", other),
            }
        }
        assert_eq!(far, stream);
        assert!(!tunnel.is_closed());
    }
}

#[test]
fn tunnel_is_torn_down_by_a_failed_read_or_a_request() {
    let mut failed = Tunnel::new("k1");
    assert_eq!(failed.on_read(Direction::Backward, PumpRead::Failed), closed("k1"));
    assert!(failed.is_closed());
    assert!(!failed.is_pump_open(Direction::Forward));
    assert_eq!(
        failed.on_read(Direction::Forward, PumpRead::Data(vec![1])),
        PumpAction::Ignore
    );

    let mut asked = Tunnel::new("k2");
    assert_eq!(asked.on_read(Direction::Backward, PumpRead::Eof), PumpAction::HalfClose);
    assert_eq!(asked.on_read(Direction::Backward, PumpRead::Data(vec![1])), PumpAction::Ignore);
    assert_eq!(asked.close(), closed("k2"));
    assert_eq!(asked.close(), PumpAction::Ignore);
}

#[test]
fn alpn_parse_reads_back_what_is_advertised() {
    assert_eq!(parse(b"T0CP"), Some(Protocol::ControlPlane));
    assert_eq!(parse(b"T0SRV0"), Some(Protocol::Service(0)));
    assert_eq!(parse(b"T0SRV999"), Some(Protocol::Service(999)));
    for id in [1u64, 10, 204, u64::MAX] {
        assert_eq!(parse(&create_service_protocol(id)), Some(Protocol::Service(id)));
    }
    for bytes in [
        &b""[..],
        b"T0",
        b"T0CPX",
        b"t0cp",
        b"T0SRV",
        b"T0SRV01",
        b"T0SRV+1",
        b"T0SRV1a",
        b"T0SRV18446744073709551616",
        b"T0SRX1",
        b"http/1.1",
    ] {
        assert_eq!(parse(bytes), None);
    }
}

fn repos() -> (InMemUserRepo, InMemAccessRepo) {
    let mut users = InMemUserRepo::new();
    users.put(User::new(100, "user100", Status::Active)).unwrap();
    users.put(User::new(101, "user101", Status::Inactive)).unwrap();
    let mut accesses = InMemAccessRepo::new();
    accesses.put(ServiceAccess::new(100, 200)).unwrap();
    accesses.put(ServiceAccess::new(101, 200)).unwrap();
    (users, accesses)
}

fn refused_with(result: Result<ServiceAccess, AppError>) -> (u16, String) {
    match result {
        Err(AppError::GenWithCodeAndMsg(code, message)) => (code, message),
        other => panic!("Unexpected result: {:?}", other),
    }
}

#[test]
fn authorize_lets_a_granted_active_user_in() {
    let (users, accesses) = repos();

    assert_eq!(authorize(&users, &accesses, 100, 200).unwrap(), ServiceAccess::new(100, 200));
}

#[test]
fn authorize_refuses_with_the_response_code() {
    let (users, accesses) = repos();

    assert_eq!(
        refused_with(authorize(&users, &accesses, 100, 201)),
        (403, "[E0403] Access is forbidden".to_string())
    );
    assert_eq!(
        refused_with(authorize(&users, &accesses, 999, 200)),
        (421, "[E0421] Unknown user is inactive".to_string())
    );
    assert_eq!(
        refused_with(authorize(&users, &accesses, 101, 200)),
        (422, "[E0422] User account is inactive".to_string())
    );
    assert_eq!(refused_with(authorize(&users, &accesses, 101, 201)).0, 422);
}

fn gateway_mgr() -> GatewayServiceMgr {
    let args = AppConfigArgs {
        port: 4000,
        cert_file: String::new(),
        key_file: String::new(),
        auth_cert_file: String::new(),
        crl_file: None,
        protocol_version: None,
        cipher_suite: None,
        alpn_protocol: None,
        session_resumption: false,
        tickets: false,
        gateway_service_host: Some("gwhost1".to_string()),
        gateway_service_ports: None,
        gateway_service_reply_host: None,
        verbose: false,
        no_mask_addresses: false,
        mode: None,
        datasource: DataSource::NoDB,
    };
    let tls = TlsMaterial {
        certs: vec![],
        key: vec![],
        auth_root_certs: vec![],
        default_cipher_suites: vec![],
        default_protocol_versions: vec![],
    };
    GatewayServiceMgr::new(&AppConfig::new(args, tls, &vec![]))
}

#[test]
fn connect_to_a_service_that_is_not_granted_is_forbidden() {
    let (users, accesses) = repos();
    let mut service_mgr = gateway_mgr();
    service_mgr.startup(&Service::new(200, "s200", Transport::TCP, "h", 80)).unwrap();

    let result = authorize(&users, &accesses, 100, 201);

    assert_eq!(refused_with(result).0, 403);
    assert!(!service_mgr.has_proxy_for_user_and_service(100, 201));
}

#[test]
fn closed_event_is_routed_to_the_proxy_of_its_service() {
    let mut service_mgr = gateway_mgr();
    service_mgr.startup(&Service::new(200, "s200", Transport::TCP, "h", 80)).unwrap();
    service_mgr.startup(&Service::new(201, "s201", Transport::TCP, "h", 81)).unwrap();
    assert_eq!(
        service_mgr.open_proxy(200, 100, "k200").unwrap(),
        ProxyExecutorEvent::OpenTcp("k200".to_string())
    );
    service_mgr.open_proxy(201, 100, "k201").unwrap();
    let mut tunnel = Tunnel::new("k200");

    let event = match tunnel.close() {
        PumpAction::Reap(event) => event,
        other => panic!("Unexpected action: {:?}", other),
    };
    service_mgr.poll_proxy_events(&vec![event]);

    assert_eq!(service_mgr.get_service_proxy(200).unwrap().proxy_count(), 0);
    assert_eq!(service_mgr.get_service_proxy(201).unwrap().proxy_count(), 1);
    assert_eq!(service_mgr.get_service_id_by_proxy_key("k200"), None);
    assert_eq!(service_mgr.get_service_id_by_proxy_key("k201"), Some(201));
}

#[test]
fn alpn_of_a_service_that_is_not_on_record_is_not_advertised() {
    let services = vec![Service::new(200, "s200", Transport::TCP, "h", 80)];
    let advertised = trust0::crypto::alpn::alpn_protocols(&services);

    assert!(!advertised.contains(&b"T0SRV999".to_vec()));
    assert!(advertised.contains(&b"T0SRV200".to_vec()));
    assert_eq!(parse(b"T0SRV999"), Some(Protocol::Service(999)));
    let mut service_mgr = gateway_mgr();
    match service_mgr.open_proxy(999, 100, "k999") {
        Err(AppError::GenWithCodeAndMsg(code, _)) => assert_eq!(code, 425),
        other => panic!("Unexpected result: {:?}", other),
    }
}
