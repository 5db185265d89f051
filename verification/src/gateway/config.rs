//! What the gateway is configured with, and how its settings are derived
//! from the command line and the service records.

use vstd::prelude::*;
use vstd::string::*;
use regex::Regex;
use crate::crypto::alpn::{alpn_protocols, protocol_list};
use crate::error::AppError;
use crate::gateway::repository::access_repo;
use crate::gateway::repository::access_repo::in_memory_repo::InMemAccessRepo;
use crate::gateway::repository::access_repo::AccessRepository;
use crate::gateway::repository::service_repo;
use crate::gateway::repository::service_repo::in_memory_repo::InMemServiceRepo;
use crate::gateway::repository::service_repo::ServiceRepository;
use crate::gateway::repository::user_repo;
use crate::gateway::repository::user_repo::in_memory_repo::InMemUserRepo;
use crate::gateway::repository::user_repo::UserRepository;
use crate::model::access::ServiceAccess;
use crate::model::service::Service;
use crate::model::user::User;
use crate::text::{parse_u16, parse_u16_spec};

verus! {

pub const RESPCODE_0403_FORBIDDEN: u16 = 403;

pub const RESPCODE_0420_INVALID_CLIENT_CERTIFICATE: u16 = 420;

pub const RESPCODE_0421_UNKNOWN_USER: u16 = 421;

pub const RESPCODE_0422_INACTIVE_USER: u16 = 422;

pub const RESPCODE_0423_INVALID_REQUEST: u16 = 423;

pub const RESPCODE_0424_INVALID_ALPN_PROTOCOL: u16 = 424;

pub const RESPCODE_0425_INACTIVE_SERVICE_PROXY: u16 = 425;

pub const RESPCODE_0500_SYSTEM_ERROR: u16 = 500;

pub const RESPCODE_0520_UNKNOWN_CODE: u16 = 520;

/// The first port given to a service when no range is configured.
pub const DEFAULT_SERVICE_PORT_START: u16 = 8200;

/// The last port given to a service when no range is configured.
pub const DEFAULT_SERVICE_PORT_END: u16 = 8250;

/// The message that goes with a response code, for the codes that have one.
pub open spec fn response_message_spec(code: u16) -> Option<Seq<char>> {
    if code == 403 {
        Some("[E0403] Access is forbidden"@)
    } else if code == 420 {
        Some("[E0420] Invalid client certificate"@)
    } else if code == 421 {
        Some("[E0421] Unknown user is inactive"@)
    } else if code == 422 {
        Some("[E0422] User account is inactive"@)
    } else if code == 423 {
        Some("[E0423] Invalid request"@)
    } else if code == 424 {
        Some("[E0424] Invalid ALPN protocol"@)
    } else if code == 425 {
        Some("[E0425] Inactive service proxy"@)
    } else if code == 500 {
        Some("[E0500] System error occurred"@)
    } else if code == 520 {
        Some("[E0520] System error occurred"@)
    } else {
        None
    }
}

/// The message that goes with a response code, for the codes that have one.
pub fn response_message(code: u16) -> (message: Option<&'static str>)
    ensures
        match message {
            Some(text) => response_message_spec(code) == Some(text@),
            None => response_message_spec(code) is None,
        },
{
    if code == RESPCODE_0403_FORBIDDEN {
        Some("[E0403] Access is forbidden")
    } else if code == RESPCODE_0420_INVALID_CLIENT_CERTIFICATE {
        Some("[E0420] Invalid client certificate")
    } else if code == RESPCODE_0421_UNKNOWN_USER {
        Some("[E0421] Unknown user is inactive")
    } else if code == RESPCODE_0422_INACTIVE_USER {
        Some("[E0422] User account is inactive")
    } else if code == RESPCODE_0423_INVALID_REQUEST {
        Some("[E0423] Invalid request")
    } else if code == RESPCODE_0424_INVALID_ALPN_PROTOCOL {
        Some("[E0424] Invalid ALPN protocol")
    } else if code == RESPCODE_0425_INACTIVE_SERVICE_PROXY {
        Some("[E0425] Inactive service proxy")
    } else if code == RESPCODE_0500_SYSTEM_ERROR {
        Some("[E0500] System error occurred")
    } else if code == RESPCODE_0520_UNKNOWN_CODE {
        Some("[E0520] System error occurred")
    } else {
        None
    }
}

/// Which mode the server operates in.
#[derive(Clone, Copy, Debug, PartialEq, Eq, Structural)]
pub enum ServerMode {
    /// Control plane for service gateway management.
    ControlPlane,
    /// Forward traffic to the respective service.
    Proxy,
}

impl Default for ServerMode {
    fn default() -> (mode: ServerMode)
        ensures
            mode == ServerMode::ControlPlane,
    {
        ServerMode::ControlPlane
    }
}

/// The files of the in-memory database.
#[derive(Debug)]
pub struct InMemoryDb {
    /// Path of the JSON file of service access records.
    pub access_db_file: String,
    /// Path of the JSON file of service records.
    pub service_db_file: String,
    /// Path of the JSON file of user records.
    pub user_db_file: String,
}

/// Where the records of the gateway come from.
#[derive(Debug)]
pub enum DataSource {
    /// No database: the repositories start empty.
    NoDB,
    /// In-memory database, loaded from three files.
    InMemoryDb(InMemoryDb),
}

impl DataSource {
    /// The files to load the access, service and user records from, if any.
    pub fn db_files(&self) -> (files: Option<(&str, &str, &str)>)
        ensures
            match *self {
                DataSource::NoDB => files is None,
                DataSource::InMemoryDb(db) => files matches Some(f) && f.0@ == db.access_db_file@
                    && f.1@ == db.service_db_file@ && f.2@ == db.user_db_file@,
            },
    {
        match self {
            DataSource::NoDB => None,
            DataSource::InMemoryDb(db) => Some(
                (db.access_db_file.as_str(), db.service_db_file.as_str(), db.user_db_file.as_str()),
            ),
        }
    }
}

/// The records that were read from the files of a data source.
pub struct DataSourceRecords {
    pub accesses: Vec<ServiceAccess>,
    pub services: Vec<Service>,
    pub users: Vec<User>,
}

/// The command line of the gateway, as plain values.
pub struct AppConfigArgs {
    /// The port to listen on.
    pub port: u16,
    /// Path of the server certificates, in PEM format.
    pub cert_file: String,
    /// Path of the server's private key, in PEM format.
    pub key_file: String,
    /// Path of the root certificates that client certificates are signed by.
    pub auth_cert_file: String,
    /// Path of the certificate revocation list, if any.
    pub crl_file: Option<String>,
    /// TLS protocol versions to use in place of the default list, by their code.
    pub protocol_version: Option<Vec<u16>>,
    /// Cipher suites to use in place of the default list, by their code.
    pub cipher_suite: Option<Vec<u16>>,
    /// ALPN protocols given on the command line.
    pub alpn_protocol: Option<Vec<Vec<u8>>>,
    /// Whether sessions may be resumed.
    pub session_resumption: bool,
    /// Whether tickets are supported.
    pub tickets: bool,
    /// The host of this gateway that clients are given for service proxies.
    pub gateway_service_host: Option<String>,
    /// The range of ports for service proxies; without it they share the gateway's port.
    pub gateway_service_ports: Option<(u16, u16)>,
    /// The host of this gateway that UDP services reply to.
    pub gateway_service_reply_host: Option<String>,
    /// Whether logging is verbose.
    pub verbose: bool,
    /// Whether addresses are shown unmasked.
    pub no_mask_addresses: bool,
    /// The mode to run in.
    pub mode: Option<ServerMode>,
    /// Where the records come from.
    pub datasource: DataSource,
}

/// What was loaded for TLS: certificates and key in DER form, and the lists
/// that are used when the command line names none.
pub struct TlsMaterial {
    pub certs: Vec<Vec<u8>>,
    pub key: Vec<u8>,
    pub auth_root_certs: Vec<Vec<u8>>,
    pub default_cipher_suites: Vec<u16>,
    pub default_protocol_versions: Vec<u16>,
}

/// All that a TLS server configuration is built from.
pub struct TlsServerConfigBuilder {
    pub certs: Vec<Vec<u8>>,
    pub key: Vec<u8>,
    pub cipher_suites: Vec<u16>,
    pub protocol_versions: Vec<u16>,
    pub auth_root_certs: Vec<Vec<u8>>,
    pub crl_file: Option<String>,
    pub session_resumption: bool,
    pub alpn_protocols: Vec<Vec<u8>>,
}

/// The configuration of a running gateway.
pub struct AppConfig {
    pub server_mode: ServerMode,
    pub server_port: u16,
    pub tls_server_config_builder: TlsServerConfigBuilder,
    pub verbose_logging: bool,
    pub gateway_service_host: Option<String>,
    pub gateway_service_ports: Option<(u16, u16)>,
    pub gateway_service_reply_host: String,
    pub mask_addresses: bool,
}

/// The regular expression that finds a port range in text.
pub open spec fn port_range_pattern() -> Seq<char> {
    "(\\d+)-(\\d+)"@
}

/// The first and second capture group of the leftmost match of the regular
/// expression `pattern` in `text`; `None` when the pattern is no regular
/// expression, nothing matches, or one of the groups took no part.
pub uninterp spec fn regex_captured_pair(pattern: Seq<char>, text: Seq<char>) -> Option<
    (Seq<char>, Seq<char>),
>;

/// A pair of texts as a pair of character sequences.
pub open spec fn pair_view(pair: Option<(String, String)>) -> Option<(Seq<char>, Seq<char>)> {
    match pair {
        Some((a, b)) => Some((a@, b@)),
        None => None,
    }
}

/// Calls `regex::Regex::captures` with the expression compiled from
/// `pattern` on `text` and hands out the texts of groups 1 and 2. The
/// contract only names what the crate returns.
#[verifier::external_body]
fn captured_pair(pattern: &str, text: &str) -> (found: Option<(String, String)>)
    ensures
        pair_view(found) == regex_captured_pair(pattern@, text@),
{
    let captures = Regex::new(pattern).ok()?.captures(text)?;
    Some((captures.get(1)?.as_str().to_string(), captures.get(2)?.as_str().to_string()))
}

/// A port read from text, 0 when the text is no `u16`.
pub open spec fn port_or_zero(text: Seq<char>) -> u16 {
    match parse_u16_spec(text) {
        Some(port) => port,
        None => 0,
    }
}

/// The port range that two captured texts stand for: both must be a `u16` other than 0.
pub open spec fn ports_of(captured: Option<(Seq<char>, Seq<char>)>) -> Option<(u16, u16)> {
    match captured {
        None => None,
        Some((start, end)) => if port_or_zero(start) == 0 || port_or_zero(end) == 0 {
            None
        } else {
            Some((port_or_zero(start), port_or_zero(end)))
        },
    }
}

/// The message of the error for a text that holds no port range.
pub open spec fn port_range_error(captured: Option<(Seq<char>, Seq<char>)>, text: Seq<char>) -> Seq<
    char,
> {
    if captured is None {
        "Invalid gateway service port range: val="@ + text
    } else {
        "Invalid gateway service port range (u16 vals required): val="@ + text
    }
}

/// What `parse_gateway_service_ports` returns for `text`, given what the
/// regular expression captured in it.
pub open spec fn port_range_result(
    captured: Option<(Seq<char>, Seq<char>)>,
    text: Seq<char>,
    result: Result<(u16, u16), AppError>,
) -> bool {
    match result {
        Ok(range) => ports_of(captured) == Some(range),
        Err(err) => ports_of(captured) is None && err.is_general(port_range_error(captured, text)),
    }
}

impl TlsServerConfigBuilder {
    /// The ALPN protocols as byte sequences.
    pub open spec fn protocols(&self) -> Seq<Seq<u8>> {
        self.alpn_protocols@.map_values(|p: Vec<u8>| p@)
    }
}

impl AppConfig {
    /// Derives the configuration from the command line, the TLS material
    /// that was loaded and the services on record: the command line's
    /// lists of cipher suites and protocol versions stand in for the
    /// default ones, the ALPN protocols are the control plane's and one
    /// for each service, the mode is the control plane's and the reply host
    /// `127.0.0.1` unless given, and addresses are masked unless asked not to.
    pub fn new(args: AppConfigArgs, tls: TlsMaterial, services: &Vec<Service>) -> (config: AppConfig)
        ensures
            config.server_mode == (match args.mode {
                Some(mode) => mode,
                None => ServerMode::ControlPlane,
            }),
            config.server_port == args.port,
            config.verbose_logging == args.verbose,
            config.gateway_service_host == args.gateway_service_host,
            config.gateway_service_ports == args.gateway_service_ports,
            config.gateway_service_reply_host@ == (match args.gateway_service_reply_host {
                Some(host) => host@,
                None => "127.0.0.1"@,
            }),
            config.mask_addresses == !args.no_mask_addresses,
            config.tls_server_config_builder.certs == tls.certs,
            config.tls_server_config_builder.key == tls.key,
            config.tls_server_config_builder.auth_root_certs == tls.auth_root_certs,
            config.tls_server_config_builder.cipher_suites == (match args.cipher_suite {
                Some(suites) => suites,
                None => tls.default_cipher_suites,
            }),
            config.tls_server_config_builder.protocol_versions == (match args.protocol_version {
                Some(versions) => versions,
                None => tls.default_protocol_versions,
            }),
            config.tls_server_config_builder.crl_file == args.crl_file,
            config.tls_server_config_builder.session_resumption == args.session_resumption,
            config.tls_server_config_builder.protocols() == protocol_list(services@),
    {
        let cipher_suites = match args.cipher_suite {
            Some(suites) => suites,
            None => tls.default_cipher_suites,
        };
        let protocol_versions = match args.protocol_version {
            Some(versions) => versions,
            None => tls.default_protocol_versions,
        };
        let tls_server_config_builder = TlsServerConfigBuilder {
            certs: tls.certs,
            key: tls.key,
            cipher_suites,
            protocol_versions,
            auth_root_certs: tls.auth_root_certs,
            crl_file: args.crl_file,
            session_resumption: args.session_resumption,
            alpn_protocols: alpn_protocols(services),
        };
        let server_mode = match args.mode {
            Some(mode) => mode,
            None => ServerMode::default(),
        };
        let gateway_service_reply_host = match args.gateway_service_reply_host {
            Some(host) => host,
            None => String::from_str("127.0.0.1"),
        };
        AppConfig {
            server_mode,
            server_port: args.port,
            tls_server_config_builder,
            verbose_logging: args.verbose,
            gateway_service_host: args.gateway_service_host,
            gateway_service_ports: args.gateway_service_ports,
            gateway_service_reply_host,
            mask_addresses: !args.no_mask_addresses,
        }
    }

    /// The three repositories for a data source: empty ones without a
    /// database, else ones that hold the records that were read from its
    /// files, each put in order.
    pub fn create_datasource_repositories(
        datasource: &DataSource,
        records: &DataSourceRecords,
    ) -> (result: Result<(InMemAccessRepo, InMemServiceRepo, InMemUserRepo), AppError>)
        ensures
            result is Ok,
            result matches Ok(repos) ==> {
                &&& repos.0.valid()
                &&& repos.1.valid()
                &&& repos.2.valid()
                &&& repos.0.records() == (match *datasource {
                    DataSource::NoDB => Map::empty(),
                    DataSource::InMemoryDb(_) => access_repo::load_spec(
                        Map::empty(),
                        records.accesses@,
                    ),
                })
                &&& repos.1.records() == (match *datasource {
                    DataSource::NoDB => Map::empty(),
                    DataSource::InMemoryDb(_) => service_repo::load_spec(
                        Map::empty(),
                        records.services@,
                    ),
                })
                &&& repos.2.records() == (match *datasource {
                    DataSource::NoDB => Map::empty(),
                    DataSource::InMemoryDb(_) => user_repo::load_spec(
                        Map::empty(),
                        records.users@,
                    ),
                })
            },
    {
        let mut access_repository = InMemAccessRepo::new();
        let mut service_repository = InMemServiceRepo::new();
        let mut user_repository = InMemUserRepo::new();
        if let DataSource::InMemoryDb(_) = datasource {
            access_repository.connect_to_datasource(&records.accesses)?;
            service_repository.connect_to_datasource(&records.services)?;
            user_repository.connect_to_datasource(&records.users)?;
        }
        Ok((access_repository, service_repository, user_repository))
    }

    /// The port range that the captured start and end stand for; `text` is
    /// what they were found in and is named in the error.
    pub fn ports_from_captures(captured: Option<(String, String)>, text: &str) -> (result: Result<
        (u16, u16),
        AppError,
    >)
        ensures
            port_range_result(pair_view(captured), text@, result),
    {
        match captured {
            None => Err(AppError::general_with("Invalid gateway service port range: val=", text)),
            Some((start, end)) => {
                let port_start: u16 = match parse_u16(start.as_str()) {
                    Some(port) => port,
                    None => 0,
                };
                let port_end: u16 = match parse_u16(end.as_str()) {
                    Some(port) => port,
                    None => 0,
                };
                if port_start == 0 || port_end == 0 {
                    return Err(
                        AppError::general_with(
                            "Invalid gateway service port range (u16 vals required): val=",
                            text,
                        ),
                    );
                }
                Ok((port_start, port_end))
            },
        }
    }

    /// Reads a port range of the form `START-END` out of `text`: the first
    /// place where digits, a hyphen and digits follow one another.
    pub fn parse_gateway_service_ports(text: &str) -> (result: Result<(u16, u16), AppError>)
        ensures
            port_range_result(regex_captured_pair(port_range_pattern(), text@), text@, result),
    {
        let captured = captured_pair("(\\d+)-(\\d+)", text);
        Self::ports_from_captures(captured, text)
    }
}

} // verus!
