use trust0::error::AppError;
use trust0::gateway::config::{AppConfig, AppConfigArgs, DataSource, TlsMaterial};
use trust0::gateway::service::manager::GatewayServiceMgr;
use trust0::model::service::{Service, Transport};
use trust0::proxy::event::{ProxyEvent, ProxyExecutorEvent};

const GATEWAY_HOST: &str = "gwhost1";
const GATEWAY_SHARED_PORT: u16 = 4000;
const GATEWAY_DISTINCT_PORT_START: u16 = 4100;
const GATEWAY_DISTINCT_PORT_END: u16 = 4102;

fn create_app_config(use_shared_port: bool) -> AppConfig {
    let args = AppConfigArgs {
        port: GATEWAY_SHARED_PORT,
        cert_file: String::new(),
        key_file: String::new(),
        auth_cert_file: String::new(),
        crl_file: None,
        protocol_version: None,
        cipher_suite: None,
        alpn_protocol: None,
        session_resumption: false,
        tickets: false,
        gateway_service_host: Some(GATEWAY_HOST.to_string()),
        gateway_service_ports: if use_shared_port {
            None
        } else {
            Some((GATEWAY_DISTINCT_PORT_START, GATEWAY_DISTINCT_PORT_END))
        },
        gateway_service_reply_host: None,
        verbose: false,
        no_mask_addresses: false,
        mode: None,
        datasource: DataSource::NoDB,
    };
    let tls = TlsMaterial {
        certs: vec![],
        key: vec![],
        auth_root_certs: vec![],
        default_cipher_suites: vec![],
        default_protocol_versions: vec![],
    };
    AppConfig::new(args, tls, &vec![])
}

fn create_gw_service_mgr(use_shared_port: bool) -> GatewayServiceMgr {
    GatewayServiceMgr::new(&create_app_config(use_shared_port))
}

fn service(id: u64, transport: Transport) -> Service {
    Service::new(id, &format!("Service{}", id), transport, "localhost", 8200)
}

#[test]
fn gwsvcmgr_startup_when_already_started() {
    let service = service(200, Transport::TCP);
    let mut service_mgr = create_gw_service_mgr(true);
    service_mgr.startup(&service).unwrap();
    let orig_svc_proxies_len = service_mgr.get_service_proxies().len();

    match service_mgr.startup(&service) {
        Ok((host, port)) => {
            assert!(host.is_some());
            assert_eq!(host.unwrap(), GATEWAY_HOST.to_string());
            assert_eq!(port, GATEWAY_SHARED_PORT);
        }
        Err(err) => panic!("Unexpected startup result: err={:?}", &err),
    }

    assert_eq!(service_mgr.get_service_proxies().len(), orig_svc_proxies_len);
}

#[test]
fn gwsvcmgr_startup_when_exhausted_ports() {
    let mut service_mgr = create_gw_service_mgr(false);
    for id in 1..=3 {
        service_mgr.startup(&service(id, Transport::TCP)).unwrap();
    }
    let orig_svc_proxies_len = service_mgr.get_service_proxies().len();

    match service_mgr.startup(&service(200, Transport::TCP)) {
        Ok((host, port)) => panic!("Unexpected startup result: host={:?}, port={}", host, port),
        Err(err) => {
            if !err.to_string().contains("exhausted") {
                panic!("Unexpected startup result: err={:?}", &err);
            }
        }
    }

    assert_eq!(service_mgr.get_service_proxies().len(), orig_svc_proxies_len);
    assert!(service_mgr.get_service_proxy(200).is_none());
}

#[test]
fn gwsvcmgr_startup_when_tcp_service() {
    let service = service(200, Transport::TCP);
    let mut service_mgr = create_gw_service_mgr(true);
    let orig_svc_proxies_len = service_mgr.get_service_proxies().len();

    match service_mgr.startup(&service) {
        Ok((host, port)) => {
            assert!(host.is_some());
            assert_eq!(host.unwrap(), GATEWAY_HOST.to_string());
            assert_eq!(port, GATEWAY_SHARED_PORT);
        }
        Err(err) => panic!("Unexpected startup result: err={:?}", &err),
    }

    assert_eq!(service_mgr.get_service_proxies().len(), orig_svc_proxies_len + 1);
    assert_eq!(service_mgr.get_service_proxy(200).unwrap().get_proxy_port(), GATEWAY_SHARED_PORT);
}

#[test]
fn gwsvcmgr_startup_when_udp_service() {
    let service = service(200, Transport::UDP);
    let mut service_mgr = create_gw_service_mgr(true);
    let orig_svc_proxies_len = service_mgr.get_service_proxies().len();

    match service_mgr.startup(&service) {
        Ok((host, port)) => {
            assert!(host.is_some());
            assert_eq!(host.unwrap(), GATEWAY_HOST.to_string());
            assert_eq!(port, GATEWAY_SHARED_PORT);
        }
        Err(err) => panic!("Unexpected startup result: err={:?}", &err),
    }

    assert_eq!(service_mgr.get_service_proxies().len(), orig_svc_proxies_len + 1);
    assert_eq!(
        service_mgr.open_proxy(200, 100, "key200").unwrap(),
        ProxyExecutorEvent::OpenUdp("key200".to_string())
    );
}

#[test]
fn gwsvcmgr_has_proxy_for_user_and_service_when_valid_user_and_svc() {
    let mut service_mgr = create_gw_service_mgr(true);
    service_mgr.startup(&service(200, Transport::TCP)).unwrap();
    service_mgr.open_proxy(200, 100, "addr1-addr2").unwrap();

    assert!(service_mgr.has_proxy_for_user_and_service(100, 200));
}

#[test]
fn gwsvcmgr_has_proxy_for_user_and_service_when_invalid_user() {
    let mut service_mgr = create_gw_service_mgr(true);
    service_mgr.startup(&service(200, Transport::TCP)).unwrap();
    service_mgr.open_proxy(200, 100, "addr1-addr2").unwrap();

    assert!(!service_mgr.has_proxy_for_user_and_service(101, 200));
}

#[test]
fn gwsvcmgr_has_proxy_for_user_and_service_when_invalid_service() {
    let mut service_mgr = create_gw_service_mgr(true);
    service_mgr.startup(&service(200, Transport::TCP)).unwrap();
    service_mgr.open_proxy(200, 100, "addr1-addr2").unwrap();

    assert!(!service_mgr.has_proxy_for_user_and_service(100, 201));
}

fn mgr_with_connections() -> GatewayServiceMgr {
    let mut service_mgr = create_gw_service_mgr(true);
    service_mgr.startup(&service(200, Transport::TCP)).unwrap();
    service_mgr.startup(&service(201, Transport::TCP)).unwrap();
    service_mgr.open_proxy(200, 100, "k200-a").unwrap();
    service_mgr.open_proxy(200, 101, "k200-b").unwrap();
    service_mgr.open_proxy(201, 100, "k201-a").unwrap();
    service_mgr.open_proxy(201, 102, "k201-b").unwrap();
    service_mgr
}

fn closed_keys(tasks: &[ProxyExecutorEvent]) -> Vec<String> {
    let mut keys: Vec<String> = tasks
        .iter()
        .map(|task| match task {
            ProxyExecutorEvent::Close(key) => key.clone(),
            other => panic!("Unexpected task: {:?}", other),
        })
        .collect();
    keys.sort();
    keys
}

#[test]
fn gwsvcmgr_shutdown_connections_when_no_service_or_user_given() {
    let service_mgr = mgr_with_connections();

    let tasks = service_mgr.shutdown_connections(None, None);

    assert_eq!(closed_keys(&tasks), vec!["k200-a", "k200-b", "k201-a", "k201-b"]);
    if let Err(err) = GatewayServiceMgr::shutdown_result(None, &vec![]) {
        panic!("Unexpected shutdown result: err={:?}", &err);
    }
}

#[test]
fn gwsvcmgr_shutdown_connections_when_no_service_given() {
    let service_mgr = mgr_with_connections();

    let tasks = service_mgr.shutdown_connections(Some(100), None);

    assert_eq!(closed_keys(&tasks), vec!["k200-a", "k201-a"]);
    if let Err(err) = GatewayServiceMgr::shutdown_result(Some(100), &vec![]) {
        panic!("Unexpected shutdown result: err={:?}", &err);
    }
}

#[test]
fn gwsvcmgr_shutdown_connections_when_no_user_given() {
    let service_mgr = mgr_with_connections();

    let tasks = service_mgr.shutdown_connections(None, Some(200));

    assert_eq!(closed_keys(&tasks), vec!["k200-a", "k200-b"]);
    if let Err(err) = GatewayServiceMgr::shutdown_result(None, &vec![]) {
        panic!("Unexpected shutdown result: err={:?}", &err);
    }
}

#[test]
fn gwsvcmgr_on_closed_proxy_when_valid_proxy_key() {
    let mut service_mgr = create_gw_service_mgr(true);
    service_mgr.startup(&service(200, Transport::TCP)).unwrap();
    service_mgr.startup(&service(201, Transport::TCP)).unwrap();
    service_mgr.open_proxy(200, 100, "key200").unwrap();
    service_mgr.open_proxy(201, 100, "key201").unwrap();

    service_mgr.on_closed_proxy("key200");

    assert_eq!(service_mgr.get_service_id_by_proxy_key("key200"), None);
    assert!(!service_mgr.get_service_proxy(200).unwrap().has_proxy("key200"));
    assert_eq!(service_mgr.get_service_id_by_proxy_key("key201"), Some(201));
    assert!(service_mgr.get_service_proxy(201).unwrap().has_proxy("key201"));
}

#[test]
fn gwsvcmgr_shutdown_connections_with_user_and_service() {
    let service_mgr = mgr_with_connections();

    let tasks = service_mgr.shutdown_connections(Some(100), Some(201));

    assert_eq!(closed_keys(&tasks), vec!["k201-a"]);
    assert_eq!(service_mgr.get_service_id_by_proxy_key("k201-a"), Some(201));
    assert!(service_mgr.has_proxy_for_user_and_service(100, 201));
}

#[test]
fn gwsvcmgr_shutdown_result_joins_the_failures() {
    let failure = GatewayServiceMgr::shutdown_failure(
        200,
        Some(100),
        &AppError::General("channel closed".to_string()),
    );
    assert_eq!(
        failure,
        "Failed shutting down service proxy connection: svc_id=200, user_id=Some(100), err=channel closed"
    );

    let result =
        GatewayServiceMgr::shutdown_result(Some(100), &vec!["one".to_string(), "two".to_string()]);

    match result {
        Err(AppError::General(message)) => assert_eq!(
            message,
            "Error shutting down services: user_id=Some(100), err(s)=one,two"
        ),
        other => panic!("Unexpected shutdown result: {:?}", other),
    }
    match GatewayServiceMgr::shutdown_result(None, &vec!["one".to_string()]) {
        Err(AppError::General(message)) => {
            assert_eq!(message, "Error shutting down services: user_id=None, err(s)=one")
        }
        other => panic!("Unexpected shutdown result: {:?}", other),
    }
}

#[test]
fn gwsvcmgr_distinct_ports_are_given_in_order_until_exhausted() {
    let mut service_mgr = create_gw_service_mgr(false);

    assert_eq!(service_mgr.startup(&service(1, Transport::TCP)).unwrap().1, 4100);
    assert_eq!(service_mgr.startup(&service(2, Transport::UDP)).unwrap().1, 4101);
    assert_eq!(service_mgr.startup(&service(1, Transport::TCP)).unwrap().1, 4100);
    assert_eq!(service_mgr.startup(&service(3, Transport::TCP)).unwrap().1, 4102);
    assert!(service_mgr.startup(&service(4, Transport::TCP)).is_err());
    let _ = service_mgr.shutdown_connections(None, Some(2));
    assert_eq!(service_mgr.startup(&service(2, Transport::UDP)).unwrap().1, 4101);
    assert_eq!(service_mgr.get_service_proxies().len(), 3);
}

#[test]
fn gwsvcmgr_open_proxy_rejects_inactive_service_and_used_key() {
    let mut service_mgr = create_gw_service_mgr(true);
    service_mgr.startup(&service(200, Transport::TCP)).unwrap();

    match service_mgr.open_proxy(201, 100, "k1") {
        Err(AppError::GenWithCodeAndMsg(code, message)) => {
            assert_eq!(code, 425);
            assert_eq!(message, "[E0425] Inactive service proxy");
        }
        other => panic!("Unexpected result: {:?}", other),
    }
    assert_eq!(
        service_mgr.open_proxy(200, 100, "k1").unwrap(),
        ProxyExecutorEvent::OpenTcp("k1".to_string())
    );
    match service_mgr.open_proxy(200, 101, "k1") {
        Err(AppError::General(message)) => {
            assert_eq!(message, "Proxy key already in use: key=k1")
        }
        other => panic!("Unexpected result: {:?}", other),
    }
    assert!(!service_mgr.has_proxy_for_user_and_service(101, 200));
}

#[test]
fn gwsvcmgr_poll_proxy_events_lets_go_of_closed_connections() {
    let mut service_mgr = mgr_with_connections();

    service_mgr.poll_proxy_events(&vec![
        ProxyEvent::Closed("k200-a".to_string()),
        ProxyEvent::Message(200, "peer".to_string(), vec![1, 2, 3]),
        ProxyEvent::Closed("unknown".to_string()),
        ProxyEvent::Closed("k201-b".to_string()),
    ]);

    assert_eq!(
        closed_keys(&service_mgr.shutdown_connections(None, None)),
        vec!["k200-b", "k201-a"]
    );
    assert_eq!(service_mgr.get_service_id_by_proxy_key("k200-a"), None);
}

#[test]
fn gwsvcmgr_shutdown_outcome_names_each_failing_service_once() {
    let service_mgr = mgr_with_connections();
    let failure = |key: &str, cause: &str| (key.to_string(), AppError::General(cause.to_string()));

    assert!(service_mgr.shutdown_outcome(None, &vec![]).is_ok());
    assert!(service_mgr.shutdown_outcome(None, &vec![failure("gone", "closed")]).is_ok());

    let result = service_mgr.shutdown_outcome(
        None,
        &vec![failure("k200-b", "queue closed"), failure("k200-a", "later")],
    );
    match result {
        Err(AppError::General(message)) => {
            assert_eq!(
                message,
                "Error shutting down services: user_id=None, err(s)=Failed shutting down service proxy connection: svc_id=200, user_id=None, err=queue closed"
            );
            assert!(message.contains("svc_id=200"));
            assert!(!message.contains("svc_id=201"));
        }
        other => panic!("Unexpected shutdown result: {:?}", other),
    }

    let result = service_mgr.shutdown_outcome(
        Some(100),
        &vec![failure("k201-a", "first"), failure("k200-a", "second"), failure("k201-b", "x")],
    );
    match result {
        Err(AppError::General(message)) => assert_eq!(
            message,
            "Error shutting down services: user_id=Some(100), err(s)=Failed shutting down service proxy connection: svc_id=201, user_id=Some(100), err=first,Failed shutting down service proxy connection: svc_id=200, user_id=Some(100), err=second"
        ),
        other => panic!("Unexpected shutdown result: {:?}", other),
    }
}
