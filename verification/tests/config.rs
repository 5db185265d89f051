use trust0::crypto::alpn::{alpn_protocols, create_control_plane_protocol, create_service_protocol};
use trust0::error::AppError;
use trust0::gateway::config::{
    response_message, AppConfig, AppConfigArgs, DataSource, DataSourceRecords, InMemoryDb,
    ServerMode, TlsMaterial, DEFAULT_SERVICE_PORT_END, DEFAULT_SERVICE_PORT_START,
    RESPCODE_0403_FORBIDDEN, RESPCODE_0420_INVALID_CLIENT_CERTIFICATE,
    RESPCODE_0421_UNKNOWN_USER, RESPCODE_0422_INACTIVE_USER, RESPCODE_0423_INVALID_REQUEST,
    RESPCODE_0424_INVALID_ALPN_PROTOCOL, RESPCODE_0425_INACTIVE_SERVICE_PROXY,
    RESPCODE_0500_SYSTEM_ERROR, RESPCODE_0520_UNKNOWN_CODE,
};
use trust0::gateway::repository::access_repo::AccessRepository;
use trust0::gateway::repository::service_repo::ServiceRepository;
use trust0::gateway::repository::user_repo::UserRepository;
use trust0::model::access::ServiceAccess;
use trust0::model::service::{Service, Transport};
use trust0::model::user::{Status, User};

fn args() -> AppConfigArgs {
    AppConfigArgs {
        port: 443,
        cert_file: "gateway.crt.pem".to_string(),
        key_file: "gateway.key.pem".to_string(),
        auth_cert_file: "ca.crt.pem".to_string(),
        crl_file: None,
        protocol_version: None,
        cipher_suite: None,
        alpn_protocol: None,
        session_resumption: false,
        tickets: false,
        gateway_service_host: None,
        gateway_service_ports: None,
        gateway_service_reply_host: None,
        verbose: false,
        no_mask_addresses: false,
        mode: None,
        datasource: DataSource::NoDB,
    }
}

fn tls() -> TlsMaterial {
    TlsMaterial {
        certs: vec![vec![1, 2, 3]],
        key: vec![4, 5],
        auth_root_certs: vec![vec![6]],
        default_cipher_suites: vec![0x1301, 0x1302],
        default_protocol_versions: vec![0x0303, 0x0304],
    }
}

fn records() -> DataSourceRecords {
    DataSourceRecords {
        accesses: vec![ServiceAccess::new(100, 200), ServiceAccess::new(101, 202)],
        services: vec![Service::new(200, "Service200", Transport::TCP, "localhost", 8200)],
        users: vec![
            User::new(100, "user100", Status::Active),
            User::new(101, "user101", Status::Inactive),
        ],
    }
}

#[test]
fn appconfig_parse_gateway_service_ports_when_invalid_range() {
    if let Ok(range) = AppConfig::parse_gateway_service_ports("20-NAN") {
        panic!("Unexpected result: val={:?}", &range);
    }
}

#[test]
fn appconfig_parse_gateway_service_ports_when_valid_range() {
    let result = AppConfig::parse_gateway_service_ports("20-40");
    if let Ok(range) = result {
        assert_eq!(range, (20, 40));
        return;
    }

    panic!("Unexpected result: val={:?}", &result);
}

#[test]
fn appconfig_create_datasource_repositories_when_inmemdb_ds() {
    let datasource = DataSource::InMemoryDb(InMemoryDb {
        access_db_file: "adf".to_string(),
        service_db_file: "sdf".to_string(),
        user_db_file: "udf".to_string(),
    });
    assert_eq!(datasource.db_files(), Some(("adf", "sdf", "udf")));

    let result = AppConfig::create_datasource_repositories(&datasource, &records());

    match result {
        Err(err) => panic!("Unexpected result: err={:?}", err),
        Ok((access_repo, service_repo, user_repo)) => {
            assert_eq!(access_repo.get(100, 200).unwrap(), Some(ServiceAccess::new(100, 200)));
            assert_eq!(access_repo.get(101, 202).unwrap(), Some(ServiceAccess::new(101, 202)));
            assert_eq!(service_repo.get_all().unwrap().len(), 1);
            assert_eq!(user_repo.get_all().unwrap().len(), 2);
            assert_eq!(user_repo.get(101).unwrap().unwrap().status, Status::Inactive);
        }
    }
}

#[test]
fn appconfig_create_datasource_repositories_when_nodb_ds() {
    let datasource = DataSource::NoDB;
    assert_eq!(datasource.db_files(), None);

    let result = AppConfig::create_datasource_repositories(&datasource, &records());

    match result {
        Err(err) => panic!("Unexpected result: err={:?}", err),
        Ok((access_repo, service_repo, user_repo)) => {
            assert!(access_repo.get_all_for_user(100).unwrap().is_empty());
            assert!(service_repo.get_all().unwrap().is_empty());
            assert!(user_repo.get_all().unwrap().is_empty());
        }
    }
}

#[test]
fn appconfig_parse_gateway_service_ports_finds_the_first_range_in_the_text() {
    assert_eq!(AppConfig::parse_gateway_service_ports("ports 8000-9000, 1-2").unwrap(), (8000, 9000));
    assert_eq!(AppConfig::parse_gateway_service_ports("1-65535").unwrap(), (1, 65535));
    assert_eq!(AppConfig::parse_gateway_service_ports("007-08").unwrap(), (7, 8));
    assert_eq!(AppConfig::parse_gateway_service_ports("40-20").unwrap(), (40, 20));
}

#[test]
fn appconfig_parse_gateway_service_ports_names_the_text_in_the_error() {
    match AppConfig::parse_gateway_service_ports("no range") {
        Err(AppError::General(message)) => {
            assert_eq!(message, "Invalid gateway service port range: val=no range")
        }
        other => panic!("Unexpected result: {:?}", other),
    }
    for text in ["0-40", "20-0", "20-65536", "70000-80000", "\u{663}-\u{664}"] {
        match AppConfig::parse_gateway_service_ports(text) {
            Err(AppError::General(message)) => assert_eq!(
                message,
                format!("Invalid gateway service port range (u16 vals required): val={}", text)
            ),
            other => panic!("Unexpected result: {:?}", other),
        }
    }
}

#[test]
fn appconfig_ports_from_captures_for_each_outcome() {
    assert_eq!(
        AppConfig::ports_from_captures(Some(("20".to_string(), "40".to_string())), "x").unwrap(),
        (20, 40)
    );
    assert_eq!(
        AppConfig::ports_from_captures(Some(("+20".to_string(), "40".to_string())), "x").unwrap(),
        (20, 40)
    );
    match AppConfig::ports_from_captures(None, "x") {
        Err(AppError::General(message)) => {
            assert_eq!(message, "Invalid gateway service port range: val=x")
        }
        other => panic!("Unexpected result: {:?}", other),
    }
    match AppConfig::ports_from_captures(Some(("20".to_string(), "".to_string())), "x") {
        Err(AppError::General(message)) => assert_eq!(
            message,
            "Invalid gateway service port range (u16 vals required): val=x"
        ),
        other => panic!("Unexpected result: {:?}", other),
    }
}

#[test]
fn appconfig_new_uses_the_defaults() {
    let services = vec![
        Service::new(200, "Service200", Transport::TCP, "localhost", 8200),
        Service::new(7, "echo-udp", Transport::UDP, "localhost", 8600),
    ];

    let config = AppConfig::new(args(), tls(), &services);

    assert!(config.server_mode == ServerMode::ControlPlane);
    assert_eq!(config.server_port, 443);
    assert!(!config.verbose_logging);
    assert_eq!(config.gateway_service_host, None);
    assert_eq!(config.gateway_service_ports, None);
    assert_eq!(config.gateway_service_reply_host, "127.0.0.1");
    assert!(config.mask_addresses);
    let builder = &config.tls_server_config_builder;
    assert_eq!(builder.certs, vec![vec![1, 2, 3]]);
    assert_eq!(builder.key, vec![4, 5]);
    assert_eq!(builder.auth_root_certs, vec![vec![6]]);
    assert_eq!(builder.cipher_suites, vec![0x1301, 0x1302]);
    assert_eq!(builder.protocol_versions, vec![0x0303, 0x0304]);
    assert_eq!(builder.crl_file, None);
    assert!(!builder.session_resumption);
    assert_eq!(
        builder.alpn_protocols,
        vec![b"T0CP".to_vec(), b"T0SRV200".to_vec(), b"T0SRV7".to_vec()]
    );
}

#[test]
fn appconfig_new_takes_what_the_command_line_gives() {
    let mut args = args();
    args.port = 8443;
    args.crl_file = Some("revoked.crl".to_string());
    args.protocol_version = Some(vec![0x0304]);
    args.cipher_suite = Some(vec![0x1303]);
    args.session_resumption = true;
    args.gateway_service_host = Some("gwhost1".to_string());
    args.gateway_service_ports = Some((8200, 8210));
    args.gateway_service_reply_host = Some("10.0.0.1".to_string());
    args.verbose = true;
    args.no_mask_addresses = true;
    args.mode = Some(ServerMode::Proxy);

    let config = AppConfig::new(args, tls(), &vec![]);

    assert!(config.server_mode == ServerMode::Proxy);
    assert_eq!(config.server_port, 8443);
    assert!(config.verbose_logging);
    assert_eq!(config.gateway_service_host, Some("gwhost1".to_string()));
    assert_eq!(config.gateway_service_ports, Some((8200, 8210)));
    assert_eq!(config.gateway_service_reply_host, "10.0.0.1");
    assert!(!config.mask_addresses);
    let builder = &config.tls_server_config_builder;
    assert_eq!(builder.cipher_suites, vec![0x1303]);
    assert_eq!(builder.protocol_versions, vec![0x0304]);
    assert_eq!(builder.crl_file, Some("revoked.crl".to_string()));
    assert!(builder.session_resumption);
    assert_eq!(builder.alpn_protocols, vec![b"T0CP".to_vec()]);
}

#[test]
fn alpn_protocols_name_the_control_plane_and_each_service() {
    assert_eq!(create_control_plane_protocol(), b"T0CP".to_vec());
    assert_eq!(create_service_protocol(0), b"T0SRV0".to_vec());
    assert_eq!(create_service_protocol(999), b"T0SRV999".to_vec());
    assert_eq!(
        create_service_protocol(u64::MAX),
        b"T0SRV18446744073709551615".to_vec()
    );
    assert_eq!(alpn_protocols(&vec![]), vec![b"T0CP".to_vec()]);
}

#[test]
fn response_messages_by_code() {
    let expected = [
        (RESPCODE_0403_FORBIDDEN, "[E0403] Access is forbidden"),
        (RESPCODE_0420_INVALID_CLIENT_CERTIFICATE, "[E0420] Invalid client certificate"),
        (RESPCODE_0421_UNKNOWN_USER, "[E0421] Unknown user is inactive"),
        (RESPCODE_0422_INACTIVE_USER, "[E0422] User account is inactive"),
        (RESPCODE_0423_INVALID_REQUEST, "[E0423] Invalid request"),
        (RESPCODE_0424_INVALID_ALPN_PROTOCOL, "[E0424] Invalid ALPN protocol"),
        (RESPCODE_0425_INACTIVE_SERVICE_PROXY, "[E0425] Inactive service proxy"),
        (RESPCODE_0500_SYSTEM_ERROR, "[E0500] System error occurred"),
        (RESPCODE_0520_UNKNOWN_CODE, "[E0520] System error occurred"),
    ];
    for (code, message) in expected {
        assert_eq!(response_message(code), Some(message));
    }
    assert_eq!(response_message(200), None);
    assert_eq!(response_message(404), None);
    assert_eq!((RESPCODE_0403_FORBIDDEN, RESPCODE_0520_UNKNOWN_CODE), (403, 520));
    assert_eq!((DEFAULT_SERVICE_PORT_START, DEFAULT_SERVICE_PORT_END), (8200, 8250));
    assert!(ServerMode::default() == ServerMode::ControlPlane);
}
